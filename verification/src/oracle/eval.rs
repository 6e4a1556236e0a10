//! Whether the events of a log have a property.
//!
//! An event enters only through its fields: the evaluation reads nothing else of it, and in
//! particular not the hash that ties it into a bundle.
use vstd::prelude::*;
use vstd::string::*;

use super::property;
use super::property::extract_field;
use super::property::Op;
use super::property::Predicate;
use super::property::PropertySpec;
use super::property::Quantifier;
use super::property::Test;
use super::OracleError;
use crate::json;
use crate::json::Json;
use crate::json::Num;
use crate::json::Value;
use crate::text;
use crate::wal::WalEvent;

verus! {

broadcast use vstd::string::group_string_axioms;

/// What came of an evaluation.
#[derive(Debug, Clone, Copy, PartialEq, Eq, Structural)]
pub enum Verdict {
    /// The property holds.
    Satisfied,
    /// The property does not hold.
    Violated,
    /// A field was missing or of the wrong kind, so that nothing can be said.
    Error,
}

/// The result of an evaluation.
#[derive(Debug, PartialEq, Eq)]
pub struct PropertyVerdict {
    pub name: String,
    pub verdict: Verdict,
    /// What was found, in words.
    pub detail: String,
    /// Number of records that the property is about.
    pub selected_count: usize,
    pub evaluated_count: usize,
    /// Number of selected records that satisfy all predicates.
    pub matched_count: usize,
}

/// The model of the result of an evaluation.
pub ghost struct Finding {
    pub name: Seq<char>,
    pub verdict: Verdict,
    pub detail: Seq<char>,
    pub selected: int,
    pub evaluated: int,
    pub matched: int,
}

impl PropertyVerdict {
    pub open spec fn view(&self) -> Finding {
        Finding {
            name: self.name@,
            verdict: self.verdict,
            detail: self.detail@,
            selected: self.selected_count as int,
            evaluated: self.evaluated_count as int,
            matched: self.matched_count as int,
        }
    }
}

// ---------------------------------------------------------------------------
// Comparing values
// ---------------------------------------------------------------------------

/// The message for a value that is not of the kind that an operator compares.
pub open spec fn coercion_message(
    whose: Seq<char>,
    v: Json,
    kind: Seq<char>,
    what: Seq<char>,
) -> Seq<char> {
    "Cannot coerce "@ + whose + " value "@ + json::shown(v) + " to "@ + kind + " for "@ + what
        + " comparison"@
}

/// Two numbers compare as the operator asks.
pub open spec fn ordered(a: int, op: Op, b: int) -> bool {
    match op {
        Op::Gt => a > b,
        Op::Lt => a < b,
        Op::Gte => a >= b,
        Op::Lte => a <= b,
        Op::Eq => a == b,
        Op::Neq => a != b,
        _ => false,
    }
}

/// The comparison of a field's value with a predicate's: whether it holds, or the message for the
/// value that cannot be compared.
///
/// `Eq` and `Neq` compare any two values, the order operators take both as doubles, and the text
/// operators look for one text in the other.
pub open spec fn compared(field: Json, op: Op, value: Json) -> Result<bool, Seq<char>> {
    match op {
        Op::Eq => Ok(json::same_json(field, value)),
        Op::Neq => Ok(!json::same_json(field, value)),
        Op::Gt | Op::Lt | Op::Gte | Op::Lte => match (json::json_rank(field), json::json_rank(
            value,
        )) {
            (None, _) => Err(coercion_message("field"@, field, "number"@, "numeric"@)),
            (_, None) => Err(coercion_message("predicate"@, value, "number"@, "numeric"@)),
            (Some(a), Some(b)) => Ok(ordered(a, op, b)),
        },
        Op::Contains | Op::Regex => match (field, value) {
            (Json::Text(a), Json::Text(b)) => Ok(text::contains_text(a, b)),
            (Json::Text(_), _) => Err(
                coercion_message("predicate"@, value, "string"@, op.name()),
            ),
            _ => Err(coercion_message("field"@, field, "string"@, op.name())),
        },
    }
}

/// The message for a value that is not of the kind that an operator compares.
fn coercion_error(whose: &str, v: &Value, kind: &str, what: &str) -> (r: String)
    ensures
        r@ == coercion_message(whose@, v@, kind@, what@),
{
    let mut r = "Cannot coerce ".to_owned();
    r.append(whose);
    r.append(" value ");
    r.append(v.show().as_str());
    r.append(" to ");
    r.append(kind);
    r.append(" for ");
    r.append(what);
    r.append(" comparison");
    r
}

/// Whether two numbers compare as the operator asks.
pub(crate) fn in_order(a: i64, op: Op, b: i64) -> (r: bool)
    ensures
        r == ordered(a as int, op, b as int),
{
    match op {
        Op::Gt => a > b,
        Op::Lt => a < b,
        Op::Gte => a >= b,
        Op::Lte => a <= b,
        Op::Eq => a == b,
        Op::Neq => a != b,
        _ => false,
    }
}

/// Compares a field's value with a predicate's.
pub fn compare_values(field: &Value, op: Op, value: &Value) -> (r: Result<bool, String>)
    ensures
        match r {
            Ok(b) => compared(field@, op, value@) == Result::<bool, Seq<char>>::Ok(b),
            Err(m) => compared(field@, op, value@) == Result::<bool, Seq<char>>::Err(m@),
        },
{
    match op {
        Op::Eq => Ok(field.equals(value)),
        Op::Neq => Ok(!field.equals(value)),
        Op::Gt | Op::Lt | Op::Gte | Op::Lte => {
            let a = match field.as_rank() {
                Some(a) => a,
                None => {
                    return Err(coercion_error("field", field, "number", "numeric"));
                },
            };
            let b = match value.as_rank() {
                Some(b) => b,
                None => {
                    return Err(coercion_error("predicate", value, "number", "numeric"));
                },
            };
            Ok(in_order(a, op, b))
        },
        Op::Contains | Op::Regex => {
            let a = match field.as_str() {
                Some(a) => a,
                None => {
                    return Err(coercion_error("field", field, "string", op.as_str()));
                },
            };
            let b = match value.as_str() {
                Some(b) => b,
                None => {
                    return Err(coercion_error("predicate", value, "string", op.as_str()));
                },
            };
            Ok(text::contains(a, b))
        },
    }
}

// ---------------------------------------------------------------------------
// Records and what they satisfy
// ---------------------------------------------------------------------------

/// A record, by the values of its fields.
pub type Row = spec_fn(Seq<char>) -> Option<Json>;

/// The record that an event is.
pub open spec fn event_row(e: WalEvent) -> Row {
    |field: Seq<char>| property::field_of(e, field)
}

/// The records that events are.
pub open spec fn event_rows(events: Seq<WalEvent>) -> Seq<Row> {
    events.map_values(|e: WalEvent| event_row(e))
}

/// Whether a record satisfies a predicate, where that can be told.
pub open spec fn holds(row: Row, t: Test) -> Option<bool> {
    match row(t.field) {
        Some(v) => match compared(v, t.op, t.value) {
            Ok(b) => Some(b),
            Err(_) => None,
        },
        None => None,
    }
}

/// The record satisfies all of some predicates.
pub open spec fn passes(row: Row, select: Seq<Test>) -> bool {
    forall|j: int| 0 <= j < select.len() ==> holds(row, #[trigger] select[j]) == Some(true)
}

/// The records that satisfy all of some predicates, in their order.
pub open spec fn selected_rows(rows: Seq<Row>, select: Seq<Test>) -> Seq<Row>
    decreases rows.len(),
{
    if rows.len() == 0 {
        Seq::empty()
    } else if passes(rows.last(), select) {
        selected_rows(rows.drop_last(), select).push(rows.last())
    } else {
        selected_rows(rows.drop_last(), select)
    }
}

/// The position of the first predicate that a record does not satisfy, or the number of
/// predicates.
pub open spec fn first_unmet(row: Row, preds: Seq<Test>) -> int
    decreases preds.len(),
{
    if preds.len() == 0 {
        0
    } else if holds(row, preds[0]) == Some(true) {
        1 + first_unmet(row, preds.skip(1))
    } else {
        0
    }
}

/// The predicate at which the evaluation of a record gets stuck: the first that the record does
/// not satisfy, where it cannot be told whether it does.
pub open spec fn stuck_at(row: Row, preds: Seq<Test>) -> Option<int> {
    let j = first_unmet(row, preds);
    if j < preds.len() && holds(row, preds[j]) is None {
        Some(j)
    } else {
        None
    }
}

/// The position of the first record at which the evaluation gets stuck, or the number of records.
pub open spec fn first_stuck(rows: Seq<Row>, preds: Seq<Test>) -> int
    decreases rows.len(),
{
    if rows.len() == 0 {
        0
    } else if stuck_at(rows[0], preds) is Some {
        0
    } else {
        1 + first_stuck(rows.skip(1), preds)
    }
}

/// How many records satisfy all of some predicates.
pub open spec fn matching(rows: Seq<Row>, preds: Seq<Test>) -> int
    decreases rows.len(),
{
    if rows.len() == 0 {
        0
    } else {
        matching(rows.drop_last(), preds) + (if passes(rows.last(), preds) {
            1int
        } else {
            0
        })
    }
}

pub proof fn lemma_first_unmet(row: Row, preds: Seq<Test>)
    ensures
        0 <= first_unmet(row, preds) <= preds.len(),
        forall|j: int|
            0 <= j < first_unmet(row, preds) ==> holds(row, #[trigger] preds[j]) == Some(true),
        first_unmet(row, preds) < preds.len() ==> holds(row, preds[first_unmet(row, preds)])
            != Some(true),
        first_unmet(row, preds) == preds.len() <==> passes(row, preds),
    decreases preds.len(),
{
    if preds.len() > 0 && holds(row, preds[0]) == Some(true) {
        let rest = preds.skip(1);
        lemma_first_unmet(row, rest);
        assert forall|j: int| 0 <= j < first_unmet(row, preds) implies holds(
            row,
            #[trigger] preds[j],
        ) == Some(true) by {
            if j > 0 {
                assert(rest[j - 1] == preds[j]);
            }
        }
        if first_unmet(row, preds) < preds.len() {
            assert(rest[first_unmet(row, rest)] == preds[first_unmet(row, preds)]);
        }
    }
}

// ---------------------------------------------------------------------------
// Properties without a selection: every event must satisfy every predicate
// ---------------------------------------------------------------------------

/// The position of the first record that does not satisfy a predicate, or the number of records.
pub open spec fn first_failing(rows: Seq<Row>, t: Test) -> int
    decreases rows.len(),
{
    if rows.len() == 0 {
        0
    } else if holds(rows[0], t) == Some(true) {
        1 + first_failing(rows.skip(1), t)
    } else {
        0
    }
}

/// The first record that does not satisfy the predicate cannot be compared.
pub open spec fn faulty(rows: Seq<Row>, t: Test) -> bool {
    let i = first_failing(rows, t);
    i < rows.len() && holds(rows[i], t) is None
}

/// The first record that does not satisfy the predicate violates it.
pub open spec fn broken(rows: Seq<Row>, t: Test) -> bool {
    let i = first_failing(rows, t);
    i < rows.len() && holds(rows[i], t) == Some(false)
}

/// The fields of the predicates that cannot be evaluated.
pub open spec fn faulty_fields(rows: Seq<Row>, preds: Seq<Test>) -> Seq<Seq<char>>
    decreases preds.len(),
{
    if preds.len() == 0 {
        Seq::empty()
    } else if faulty(rows, preds.last()) {
        faulty_fields(rows, preds.drop_last()).push(preds.last().field)
    } else {
        faulty_fields(rows, preds.drop_last())
    }
}

/// The fields of the predicates that are violated.
pub open spec fn broken_fields(rows: Seq<Row>, preds: Seq<Test>) -> Seq<Seq<char>>
    decreases preds.len(),
{
    if preds.len() == 0 {
        Seq::empty()
    } else if broken(rows, preds.last()) {
        broken_fields(rows, preds.drop_last()).push(preds.last().field)
    } else {
        broken_fields(rows, preds.drop_last())
    }
}

/// What is found of a property that has no selection, no quantifier and no version.
pub open spec fn plain_finding(rows: Seq<Row>, name: Seq<char>, preds: Seq<Test>) -> Finding {
    let n = rows.len() as int;
    let faults = faulty_fields(rows, preds);
    let breaks = broken_fields(rows, preds);
    if preds.len() == 0 {
        Finding {
            name,
            verdict: Verdict::Satisfied,
            detail: "Empty predicate set: total-function satisfied by definition"@,
            selected: n,
            evaluated: n,
            matched: n,
        }
    } else if faults.len() > 0 {
        Finding {
            name,
            verdict: Verdict::Error,
            detail: "Evaluation error on field(s): "@ + text::joined(faults, ", "@)
                + "; predicate could not be evaluated"@,
            selected: n,
            evaluated: n,
            matched: 0,
        }
    } else if breaks.len() > 0 {
        Finding {
            name,
            verdict: Verdict::Violated,
            detail: "Predicate(s) violated on field(s): "@ + text::joined(breaks, ", "@)
                + "; expected all predicates to hold"@,
            selected: n,
            evaluated: n,
            matched: 0,
        }
    } else {
        Finding {
            name,
            verdict: Verdict::Satisfied,
            detail: "All "@ + text::decimal(preds.len()) + " predicate(s) satisfied"@,
            selected: n,
            evaluated: n,
            matched: n,
        }
    }
}

// ---------------------------------------------------------------------------
// Properties with a selection and a quantifier
// ---------------------------------------------------------------------------

/// `m` of `n`, in words.
pub open spec fn share(head: Seq<char>, m: int, n: int) -> Seq<char> {
    head + text::decimal(m as nat) + "/"@ + text::decimal(n as nat) + " satisfy"@
}

/// A count and what it is compared with, in words.
pub open spec fn count_text(head: Seq<char>, m: int, op: Op, threshold: u64, tail: Seq<char>) -> Seq<
    char,
> {
    head + text::decimal(m as nat) + " "@ + op.name() + " "@ + text::decimal(threshold as nat)
        + tail
}

/// A number of records compares with a threshold as the operator asks.
pub open spec fn count_holds(m: int, op: Op, threshold: u64) -> bool {
    compared(
        Json::Number(Num::PosInt(m as u64)),
        op,
        Json::Number(Num::PosInt(threshold)),
    ) == Result::<bool, Seq<char>>::Ok(true)
}

/// What a quantifier says of `m` matching records among `n`.
pub open spec fn quantified(q: Quantifier, m: int, n: int) -> (Verdict, Seq<char>) {
    match q {
        Quantifier::All => if m == n {
            (Verdict::Satisfied, share("ALL: "@, m, n))
        } else {
            (Verdict::Violated, share("ALL violated: "@, m, n))
        },
        Quantifier::Exists => if m >= 1 {
            (Verdict::Satisfied, share("EXISTS: "@, m, n))
        } else {
            (Verdict::Violated, share("EXISTS violated: "@, 0, n))
        },
        Quantifier::NoneOf => if m == 0 {
            (Verdict::Satisfied, share("NONE: "@, 0, n))
        } else {
            (Verdict::Violated, share("NONE violated: "@, m, n))
        },
        Quantifier::Count { op, threshold } => if count_holds(m, op, threshold) {
            (Verdict::Satisfied, count_text("COUNT: "@, m, op, threshold, ""@))
        } else {
            (Verdict::Violated, count_text("COUNT violated: "@, m, op, threshold, ""@))
        },
    }
}

/// What a quantifier says of `n` selected records where there is no predicate.
pub open spec fn quantified_bare(q: Quantifier, n: int) -> (Verdict, Seq<char>) {
    match q {
        Quantifier::All | Quantifier::NoneOf => (
            Verdict::Satisfied,
            "Empty predicates over "@ + text::decimal(n as nat) + " selected: satisfied"@,
        ),
        Quantifier::Exists => (
            if n > 0 {
                Verdict::Satisfied
            } else {
                Verdict::Violated
            },
            "Empty predicates Exists over "@ + text::decimal(n as nat) + " selected"@,
        ),
        Quantifier::Count { op, threshold } => (
            if count_holds(n, op, threshold) {
                Verdict::Satisfied
            } else {
                Verdict::Violated
            },
            count_text("Count "@, n, op, threshold, " (empty predicates)"@),
        ),
    }
}

/// What is found of a property that selects records and quantifies over them.
pub open spec fn quantified_finding(
    rows: Seq<Row>,
    name: Seq<char>,
    select: Seq<Test>,
    preds: Seq<Test>,
    q: Quantifier,
) -> Finding {
    let chosen = selected_rows(rows, select);
    let n = chosen.len() as int;
    let k = first_stuck(chosen, preds);
    if preds.len() == 0 {
        let (verdict, detail) = quantified_bare(q, n);
        Finding { name, verdict, detail, selected: n, evaluated: n, matched: n }
    } else if k < n {
        Finding {
            name,
            verdict: Verdict::Error,
            detail: "Evaluation error on field '"@ + preds[stuck_at(chosen[k], preds)->0].field
                + "'; selector should have removed unrelated events (§47)"@,
            selected: n,
            evaluated: n,
            matched: matching(chosen.take(k), preds),
        }
    } else {
        let m = matching(chosen, preds);
        let (verdict, detail) = quantified(q, m, n);
        Finding { name, verdict, detail, selected: n, evaluated: n, matched: m }
    }
}

/// What is found of a property in some events.
pub open spec fn finding(events: Seq<WalEvent>, spec: PropertySpec) -> Finding {
    let rows = event_rows(events);
    let preds = property::tests(spec.predicates@);
    let select = property::tests(spec.select@);
    if select.len() > 0 || spec.quantifier != Quantifier::All || spec.version is Some {
        quantified_finding(rows, spec.name@, select, preds, spec.quantifier)
    } else {
        plain_finding(rows, spec.name@, preds)
    }
}

// ---------------------------------------------------------------------------
// Evaluation
// ---------------------------------------------------------------------------

/// What came of one predicate on one event.
#[derive(Debug, Clone, Copy, PartialEq, Eq, Structural)]
enum PredicateOutcome {
    Satisfied,
    Violated,
    UnknownField,
    TypeMismatch,
}

impl PredicateOutcome {
    spec fn view(&self) -> Option<bool> {
        match self {
            PredicateOutcome::Satisfied => Some(true),
            PredicateOutcome::Violated => Some(false),
            PredicateOutcome::UnknownField => None,
            PredicateOutcome::TypeMismatch => None,
        }
    }
}

/// Evaluates one predicate on one event.
fn evaluate_predicate(event: &WalEvent, predicate: &Predicate) -> (r: PredicateOutcome)
    ensures
        r@ == holds(event_row(*event), predicate@),
{
    let v = match extract_field(event, predicate.field.as_str()) {
        Some(v) => v,
        None => {
            return PredicateOutcome::UnknownField;
        },
    };
    match compare_values(&v, predicate.op, &predicate.value) {
        Ok(true) => PredicateOutcome::Satisfied,
        Ok(false) => PredicateOutcome::Violated,
        Err(_) => PredicateOutcome::TypeMismatch,
    }
}

/// What came of one predicate on all events: the outcome at the first event that does not satisfy
/// it.
fn evaluate_everywhere(events: &[WalEvent], predicate: &Predicate) -> (r: PredicateOutcome)
    ensures
        (r@ is None) == faulty(event_rows(events@), predicate@),
        (r@ == Some(false)) == broken(event_rows(events@), predicate@),
{
    let ghost rows = event_rows(events@);
    let ghost t = predicate@;
    assert(rows.skip(0) =~= rows);
    let mut i: usize = 0;
    while i < events.len()
        invariant
            rows == event_rows(events@),
            t == predicate@,
            i <= events@.len(),
            first_failing(rows, t) == i + first_failing(rows.skip(i as int), t),
        decreases events@.len() - i,
    {
        assert(rows.skip(i as int)[0] == event_row(events@[i as int]));
        assert(rows[i as int] == event_row(events@[i as int]));
        let outcome = evaluate_predicate(&events[i], predicate);
        match outcome {
            PredicateOutcome::Satisfied => {},
            _ => {
                assert(first_failing(rows, t) == i);
                return outcome;
            },
        }
        assert(rows.skip(i as int).skip(1) =~= rows.skip(i + 1));
        i = i + 1;
    }
    assert(first_failing(rows, t) == rows.len());
    PredicateOutcome::Satisfied
}

/// Evaluates a property on the events of a log.
pub fn evaluate(events: &[WalEvent], spec: &PropertySpec) -> (r: Result<
    PropertyVerdict,
    OracleError,
>)
    ensures
        r matches Ok(v) && v@ == finding(events@, *spec),
{
    let plain = match spec.quantifier {
        Quantifier::All => true,
        _ => false,
    };
    if spec.select.len() > 0 || !plain || spec.version.is_some() {
        return evaluate_v2(events, spec);
    }
    let ghost rows = event_rows(events@);
    let ghost preds = property::tests(spec.predicates@);
    if spec.predicates.len() == 0 {
        return Ok(
            PropertyVerdict {
                name: spec.name.clone(),
                verdict: Verdict::Satisfied,
                detail: "Empty predicate set: total-function satisfied by definition".to_owned(),
                selected_count: events.len(),
                evaluated_count: events.len(),
                matched_count: events.len(),
            },
        );
    }
    let mut has_error = false;
    let mut error_fields: Vec<String> = Vec::new();
    let mut violated_fields: Vec<String> = Vec::new();
    assert(text::texts(error_fields@) =~= faulty_fields(rows, preds.take(0)));
    assert(text::texts(violated_fields@) =~= broken_fields(rows, preds.take(0)));
    for i in 0..spec.predicates.len()
        invariant
            rows == event_rows(events@),
            preds == property::tests(spec.predicates@),
            text::texts(error_fields@) == faulty_fields(rows, preds.take(i as int)),
            has_error == (error_fields@.len() > 0),
            !has_error ==> text::texts(violated_fields@) == broken_fields(
                rows,
                preds.take(i as int),
            ),
    {
        assert(preds.take(i + 1).drop_last() =~= preds.take(i as int));
        assert(preds.take(i + 1).last() == spec.predicates@[i as int]@);
        let outcome = evaluate_everywhere(events, &spec.predicates[i]);
        match outcome {
            PredicateOutcome::UnknownField | PredicateOutcome::TypeMismatch => {
                let ghost before = error_fields@;
                has_error = true;
                error_fields.push(spec.predicates[i].field.clone());
                assert(text::texts(error_fields@) =~= text::texts(before).push(
                    spec.predicates@[i as int].field@,
                ));
            },
            PredicateOutcome::Violated => {
                if !has_error {
                    let ghost before = violated_fields@;
                    violated_fields.push(spec.predicates[i].field.clone());
                    assert(text::texts(violated_fields@) =~= text::texts(before).push(
                        spec.predicates@[i as int].field@,
                    ));
                }
            },
            PredicateOutcome::Satisfied => {},
        }
    }
    assert(preds.take(preds.len() as int) =~= preds);
    assert(text::texts(error_fields@).len() == error_fields@.len());
    assert(text::texts(violated_fields@).len() == violated_fields@.len());
    if has_error {
        let mut detail = "Evaluation error on field(s): ".to_owned();
        detail.append(text::join(&error_fields, ", ").as_str());
        detail.append("; predicate could not be evaluated");
        return Ok(
            PropertyVerdict {
                name: spec.name.clone(),
                verdict: Verdict::Error,
                detail,
                selected_count: events.len(),
                evaluated_count: events.len(),
                matched_count: 0,
            },
        );
    }
    if violated_fields.len() > 0 {
        let mut detail = "Predicate(s) violated on field(s): ".to_owned();
        detail.append(text::join(&violated_fields, ", ").as_str());
        detail.append("; expected all predicates to hold");
        return Ok(
            PropertyVerdict {
                name: spec.name.clone(),
                verdict: Verdict::Violated,
                detail,
                selected_count: events.len(),
                evaluated_count: events.len(),
                matched_count: 0,
            },
        );
    }
    let mut detail = "All ".to_owned();
    detail.append(text::decimal_text(spec.predicates.len() as u64).as_str());
    detail.append(" predicate(s) satisfied");
    Ok(
        PropertyVerdict {
            name: spec.name.clone(),
            verdict: Verdict::Satisfied,
            detail,
            selected_count: events.len(),
            evaluated_count: events.len(),
            matched_count: events.len(),
        },
    )
}

/// Whether an event satisfies all of some predicates.
fn event_passes(event: &WalEvent, select: &Vec<Predicate>) -> (r: bool)
    ensures
        r == passes(event_row(*event), property::tests(select@)),
{
    let ghost tests = property::tests(select@);
    for j in 0..select.len()
        invariant
            tests == property::tests(select@),
            forall|k: int|
                0 <= k < j ==> holds(event_row(*event), #[trigger] tests[k]) == Some(true),
    {
        assert(tests[j as int] == select@[j as int]@);
        let held = match extract_field(event, select[j].field.as_str()) {
            Some(v) => match compare_values(&v, select[j].op, &select[j].value) {
                Ok(b) => b,
                Err(_) => false,
            },
            None => false,
        };
        if !held {
            assert(holds(event_row(*event), tests[j as int]) != Some(true));
            return false;
        }
    }
    true
}

/// What came of all predicates on one event: whether it satisfies them, or the predicate at which
/// the evaluation got stuck.
fn evaluate_record(event: &WalEvent, preds: &Vec<Predicate>) -> (r: Result<bool, usize>)
    ensures
        match r {
            Ok(b) => stuck_at(event_row(*event), property::tests(preds@)) is None && b == passes(
                event_row(*event),
                property::tests(preds@),
            ),
            Err(j) => j < preds@.len() && stuck_at(event_row(*event), property::tests(preds@))
                == Some(j as int),
        },
{
    let ghost row = event_row(*event);
    let ghost tests = property::tests(preds@);
    proof {
        lemma_first_unmet(row, tests);
    }
    for j in 0..preds.len()
        invariant
            tests == property::tests(preds@),
            row == event_row(*event),
            forall|k: int| 0 <= k < j ==> holds(row, #[trigger] tests[k]) == Some(true),
            0 <= first_unmet(row, tests) <= tests.len(),
            forall|k: int|
                0 <= k < first_unmet(row, tests) ==> holds(row, #[trigger] tests[k]) == Some(true),
            first_unmet(row, tests) < tests.len() ==> holds(row, tests[first_unmet(row, tests)])
                != Some(true),
            first_unmet(row, tests) == tests.len() <==> passes(row, tests),
    {
        assert(tests[j as int] == preds@[j as int]@);
        match evaluate_predicate(event, &preds[j]) {
            PredicateOutcome::Satisfied => {},
            PredicateOutcome::Violated => {
                assert(first_unmet(row, tests) == j) by {
                    assert(holds(row, tests[j as int]) != Some(true));
                }
                return Ok(false);
            },
            PredicateOutcome::UnknownField | PredicateOutcome::TypeMismatch => {
                assert(first_unmet(row, tests) == j) by {
                    assert(holds(row, tests[j as int]) != Some(true));
                }
                return Err(j);
            },
        }
    }
    assert(first_unmet(row, tests) == tests.len());
    Ok(true)
}

/// Whether a number of records compares with a threshold as the operator asks.
fn count_matches(m: usize, op: Op, threshold: u64) -> (r: bool)
    ensures
        r == count_holds(m as int, op, threshold),
{
    match compare_values(&Value::from_natural(m as u64), op, &Value::from_natural(threshold)) {
        Ok(b) => b,
        Err(_) => false,
    }
}

/// `m` of `n`, in words.
pub(crate) fn share_text(head: &str, m: usize, n: usize) -> (r: String)
    ensures
        r@ == share(head@, m as int, n as int),
{
    let mut r = head.to_owned();
    r.append(text::decimal_text(m as u64).as_str());
    r.append("/");
    r.append(text::decimal_text(n as u64).as_str());
    r.append(" satisfy");
    r
}

/// A count and what it is compared with, in words.
pub(crate) fn count_words(head: &str, m: usize, op: Op, threshold: u64, tail: &str) -> (r: String)
    ensures
        r@ == count_text(head@, m as int, op, threshold, tail@),
{
    let mut r = head.to_owned();
    r.append(text::decimal_text(m as u64).as_str());
    r.append(" ");
    r.append(op.as_str());
    r.append(" ");
    r.append(text::decimal_text(threshold).as_str());
    r.append(tail);
    r
}

/// What a quantifier says of `m` matching records among `n`.
fn quantify(q: Quantifier, m: usize, n: usize) -> (r: (Verdict, String))
    ensures
        (r.0, r.1@) == quantified(q, m as int, n as int),
{
    match q {
        Quantifier::All => if m == n {
            (Verdict::Satisfied, share_text("ALL: ", m, n))
        } else {
            (Verdict::Violated, share_text("ALL violated: ", m, n))
        },
        Quantifier::Exists => if m >= 1 {
            (Verdict::Satisfied, share_text("EXISTS: ", m, n))
        } else {
            (Verdict::Violated, share_text("EXISTS violated: ", 0, n))
        },
        Quantifier::NoneOf => if m == 0 {
            (Verdict::Satisfied, share_text("NONE: ", 0, n))
        } else {
            (Verdict::Violated, share_text("NONE violated: ", m, n))
        },
        Quantifier::Count { op, threshold } => if count_matches(m, op, threshold) {
            (Verdict::Satisfied, count_words("COUNT: ", m, op, threshold, ""))
        } else {
            (Verdict::Violated, count_words("COUNT violated: ", m, op, threshold, ""))
        },
    }
}

/// What a quantifier says of `n` selected records where there is no predicate.
fn quantify_bare(q: Quantifier, n: usize) -> (r: (Verdict, String))
    ensures
        (r.0, r.1@) == quantified_bare(q, n as int),
{
    match q {
        Quantifier::All | Quantifier::NoneOf => {
            let mut detail = "Empty predicates over ".to_owned();
            detail.append(text::decimal_text(n as u64).as_str());
            detail.append(" selected: satisfied");
            (Verdict::Satisfied, detail)
        },
        Quantifier::Exists => {
            let mut detail = "Empty predicates Exists over ".to_owned();
            detail.append(text::decimal_text(n as u64).as_str());
            detail.append(" selected");
            (
                if n > 0 {
                    Verdict::Satisfied
                } else {
                    Verdict::Violated
                },
                detail,
            )
        },
        Quantifier::Count { op, threshold } => (
            if count_matches(n, op, threshold) {
                Verdict::Satisfied
            } else {
                Verdict::Violated
            },
            count_words("Count ", n, op, threshold, " (empty predicates)"),
        ),
    }
}

/// The positions of the events that satisfy all of some predicates, in their order.
fn select_events(events: &[WalEvent], select: &Vec<Predicate>) -> (r: Vec<usize>)
    ensures
        forall|k: int| 0 <= k < r@.len() ==> (#[trigger] r@[k]) < events@.len(),
        selected_rows(event_rows(events@), property::tests(select@)) == r@.map_values(
            |i: usize| event_row(events@[i as int]),
        ),
{
    let ghost rows = event_rows(events@);
    let ghost tests = property::tests(select@);
    let ghost at = |i: usize| event_row(events@[i as int]);
    let mut r: Vec<usize> = Vec::new();
    assert(selected_rows(rows.take(0), tests) =~= r@.map_values(at));
    for i in 0..events.len()
        invariant
            rows == event_rows(events@),
            tests == property::tests(select@),
            at == (|i: usize| event_row(events@[i as int])),
            forall|k: int| 0 <= k < r@.len() ==> (#[trigger] r@[k]) < events@.len(),
            selected_rows(rows.take(i as int), tests) == r@.map_values(at),
    {
        assert(rows.take(i + 1).drop_last() =~= rows.take(i as int));
        assert(rows.take(i + 1).last() == event_row(events@[i as int]));
        if event_passes(&events[i], select) {
            let ghost before = r@;
            r.push(i);
            assert(r@.map_values(at) =~= before.map_values(at).push(event_row(events@[i as int])));
        }
    }
    assert(rows.take(rows.len() as int) =~= rows);
    r
}

/// Evaluates a property that selects records and quantifies over them.
pub fn evaluate_v2(events: &[WalEvent], spec: &PropertySpec) -> (r: Result<
    PropertyVerdict,
    OracleError,
>)
    ensures
        r matches Ok(v) && v@ == quantified_finding(
            event_rows(events@),
            spec.name@,
            property::tests(spec.select@),
            property::tests(spec.predicates@),
            spec.quantifier,
        ),
{
    let ghost rows = event_rows(events@);
    let ghost preds = property::tests(spec.predicates@);
    let ghost chosen = selected_rows(rows, property::tests(spec.select@));
    let selected = select_events(events, &spec.select);
    let n = selected.len();
    assert(n == chosen.len());
    assert(forall|k: int|
        0 <= k < chosen.len() ==> chosen[k] == event_row(events@[(#[trigger] selected@[k]) as int]));
    if spec.predicates.len() == 0 {
        let (verdict, detail) = quantify_bare(spec.quantifier, n);
        return Ok(
            PropertyVerdict {
                name: spec.name.clone(),
                verdict,
                detail,
                selected_count: n,
                evaluated_count: n,
                matched_count: n,
            },
        );
    }
    let mut matched: usize = 0;
    assert(chosen.skip(0) =~= chosen);
    for k in 0..n
        invariant
            n == selected@.len(),
            n == chosen.len(),
            preds == property::tests(spec.predicates@),
            rows == event_rows(events@),
            chosen == selected_rows(rows, property::tests(spec.select@)),
            preds.len() > 0,
            forall|k: int| 0 <= k < selected@.len() ==> (#[trigger] selected@[k]) < events@.len(),
            forall|k: int|
                0 <= k < chosen.len() ==> chosen[k] == event_row(
                    events@[(#[trigger] selected@[k]) as int],
                ),
            matched <= k,
            matched == matching(chosen.take(k as int), preds),
            first_stuck(chosen, preds) == k + first_stuck(chosen.skip(k as int), preds),
    {
        assert(chosen.skip(k as int)[0] == chosen[k as int]);
        assert(chosen[k as int] == event_row(events@[selected@[k as int] as int]));
        assert(chosen.take(k + 1).drop_last() =~= chosen.take(k as int));
        assert(chosen.skip(k as int).skip(1) =~= chosen.skip(k + 1));
        match evaluate_record(&events[selected[k]], &spec.predicates) {
            Ok(b) => {
                if b {
                    matched = matched + 1;
                }
            },
            Err(j) => {
                assert(preds[j as int].field == spec.predicates@[j as int].field@);
                let mut detail = "Evaluation error on field '".to_owned();
                detail.append(spec.predicates[j].field.as_str());
                detail.append("'; selector should have removed unrelated events (§47)");
                return Ok(
                    PropertyVerdict {
                        name: spec.name.clone(),
                        verdict: Verdict::Error,
                        detail,
                        selected_count: n,
                        evaluated_count: n,
                        matched_count: matched,
                    },
                );
            },
        }
    }
    assert(chosen.take(chosen.len() as int) =~= chosen);
    let (verdict, detail) = quantify(spec.quantifier, matched, n);
    Ok(
        PropertyVerdict {
            name: spec.name.clone(),
            verdict,
            detail,
            selected_count: n,
            evaluated_count: n,
            matched_count: matched,
        },
    )
}

} // verus!
