//! What holds of every evaluation.
use vstd::prelude::*;
use vstd::string::*;

use super::eval;
use super::eval::Row;
use super::eval::Verdict;
use super::generic_eval;
use super::property;
use super::property::Op;
use super::property::PropertySpec;
use super::property::Quantifier;
use super::property::Test;
use crate::json;
use crate::json::Json;
use crate::json::Num;
use crate::text;
use crate::wal::WalEvent;
use crate::wal::WalEventType;

verus! {

broadcast use vstd::string::group_string_axioms;

/// The property has no selection, no quantifier but the default one, and no version.
pub open spec fn is_plain(spec: PropertySpec) -> bool {
    spec.select@.len() == 0 && spec.quantifier == Quantifier::All && spec.version is None
}

/// The records that a property is about.
pub open spec fn chosen(events: Seq<WalEvent>, spec: PropertySpec) -> Seq<Row> {
    eval::selected_rows(eval::event_rows(events), property::tests(spec.select@))
}

/// A property without predicates is satisfied, whatever the events, unless its quantifier asks for
/// a number of records that are not there.
pub proof fn law_empty_predicates_satisfied(events: Seq<WalEvent>, spec: PropertySpec)
    requires
        spec.predicates@.len() == 0,
        match spec.quantifier {
            Quantifier::All | Quantifier::NoneOf => true,
            Quantifier::Exists => chosen(events, spec).len() > 0,
            Quantifier::Count { op, threshold } => eval::count_holds(
                chosen(events, spec).len() as int,
                op,
                threshold,
            ),
        },
    ensures
        eval::finding(events, spec).verdict == Verdict::Satisfied,
{
}

/// Two events agree in all that an evaluation reads.
pub open spec fn agree(a: WalEvent, b: WalEvent) -> bool {
    &&& a.event_type == b.event_type
    &&& a.job_id@ == b.job_id@
    &&& a.seq == b.seq
    &&& json::option_view(a.output) == json::option_view(b.output)
}

/// An evaluation reads the kind, the job, the place and the output of an event and nothing else:
/// events that agree in these give the same result, whatever their hashes, times and measurements.
pub proof fn law_reads_only_fields(a: Seq<WalEvent>, b: Seq<WalEvent>, spec: PropertySpec)
    requires
        a.len() == b.len(),
        forall|i: int| 0 <= i < a.len() ==> agree(#[trigger] a[i], b[i]),
    ensures
        eval::finding(a, spec) == eval::finding(b, spec),
{
    assert forall|i: int| 0 <= i < a.len() implies eval::event_row(#[trigger] a[i])
        == eval::event_row(b[i]) by {
        assert(agree(a[i], b[i]));
        assert forall|field: Seq<char>| property::field_of(a[i], field) == property::field_of(
            b[i],
            field,
        ) by {}
        assert(eval::event_row(a[i]) =~= eval::event_row(b[i]));
    }
    assert(eval::event_rows(a) =~= eval::event_rows(b));
}

proof fn lemma_first_failing(rows: Seq<Row>, t: Test)
    ensures
        0 <= eval::first_failing(rows, t) <= rows.len(),
        forall|i: int|
            0 <= i < eval::first_failing(rows, t) ==> eval::holds(#[trigger] rows[i], t) == Some(
                true,
            ),
        eval::first_failing(rows, t) < rows.len() ==> eval::holds(
            rows[eval::first_failing(rows, t)],
            t,
        ) != Some(true),
    decreases rows.len(),
{
    if rows.len() > 0 && eval::holds(rows[0], t) == Some(true) {
        let rest = rows.skip(1);
        lemma_first_failing(rest, t);
        assert forall|i: int| 0 <= i < eval::first_failing(rows, t) implies eval::holds(
            #[trigger] rows[i],
            t,
        ) == Some(true) by {
            if i > 0 {
                assert(rest[i - 1] == rows[i]);
            }
        }
        if eval::first_failing(rows, t) < rows.len() {
            assert(rest[eval::first_failing(rest, t)] == rows[eval::first_failing(rows, t)]);
        }
    }
}

proof fn lemma_faulty_listed(rows: Seq<Row>, preds: Seq<Test>)
    ensures
        eval::faulty_fields(rows, preds).len() > 0 <==> exists|j: int|
            0 <= j < preds.len() && eval::faulty(rows, #[trigger] preds[j]),
    decreases preds.len(),
{
    if preds.len() > 0 {
        let rest = preds.drop_last();
        lemma_faulty_listed(rows, rest);
        if eval::faulty(rows, preds.last()) {
            assert(eval::faulty(rows, preds[preds.len() - 1]));
        } else {
            if eval::faulty_fields(rows, preds).len() > 0 {
                let j = choose|j: int| 0 <= j < rest.len() && eval::faulty(rows, #[trigger] rest[j]);
                assert(eval::faulty(rows, preds[j]));
            }
            if exists|j: int| 0 <= j < preds.len() && eval::faulty(rows, #[trigger] preds[j]) {
                let j = choose|j: int|
                    0 <= j < preds.len() && eval::faulty(rows, #[trigger] preds[j]);
                assert(eval::faulty(rows, rest[j]));
            }
        }
    }
}

proof fn lemma_broken_listed(rows: Seq<Row>, preds: Seq<Test>)
    ensures
        eval::broken_fields(rows, preds).len() > 0 <==> exists|j: int|
            0 <= j < preds.len() && eval::broken(rows, #[trigger] preds[j]),
    decreases preds.len(),
{
    if preds.len() > 0 {
        let rest = preds.drop_last();
        lemma_broken_listed(rows, rest);
        if eval::broken(rows, preds.last()) {
            assert(eval::broken(rows, preds[preds.len() - 1]));
        } else {
            if eval::broken_fields(rows, preds).len() > 0 {
                let j = choose|j: int| 0 <= j < rest.len() && eval::broken(rows, #[trigger] rest[j]);
                assert(eval::broken(rows, preds[j]));
            }
            if exists|j: int| 0 <= j < preds.len() && eval::broken(rows, #[trigger] preds[j]) {
                let j = choose|j: int|
                    0 <= j < preds.len() && eval::broken(rows, #[trigger] preds[j]);
                assert(eval::broken(rows, rest[j]));
            }
        }
    }
}

/// Predicates are combined with "and": a plain property is satisfied exactly where every event
/// satisfies every predicate.
pub proof fn law_plain_means_all(events: Seq<WalEvent>, spec: PropertySpec)
    requires
        is_plain(spec),
    ensures
        eval::finding(events, spec).verdict == Verdict::Satisfied <==> forall|i: int|
            0 <= i < events.len() ==> eval::passes(
                eval::event_row(#[trigger] events[i]),
                property::tests(spec.predicates@),
            ),
{
    let rows = eval::event_rows(events);
    let preds = property::tests(spec.predicates@);
    lemma_faulty_listed(rows, preds);
    lemma_broken_listed(rows, preds);
    assert forall|j: int| 0 <= j < preds.len() implies (eval::faulty(rows, #[trigger] preds[j])
        || eval::broken(rows, preds[j]) <==> exists|i: int|
        0 <= i < rows.len() && eval::holds(#[trigger] rows[i], preds[j]) != Some(true)) by {
        lemma_first_failing(rows, preds[j]);
    }
    if eval::finding(events, spec).verdict == Verdict::Satisfied {
        assert forall|i: int| 0 <= i < events.len() implies eval::passes(
            eval::event_row(#[trigger] events[i]),
            preds,
        ) by {
            assert forall|j: int| 0 <= j < preds.len() implies eval::holds(
                eval::event_row(events[i]),
                #[trigger] preds[j],
            ) == Some(true) by {
                assert(rows[i] == eval::event_row(events[i]));
                assert(!eval::faulty(rows, preds[j]));
                assert(!eval::broken(rows, preds[j]));
            }
        }
    } else {
        assert(exists|j: int|
            0 <= j < preds.len() && (eval::faulty(rows, #[trigger] preds[j]) || eval::broken(
                rows,
                preds[j],
            )));
        let j = choose|j: int|
            0 <= j < preds.len() && (eval::faulty(rows, #[trigger] preds[j]) || eval::broken(
                rows,
                preds[j],
            ));
        let i = choose|i: int|
            0 <= i < rows.len() && eval::holds(#[trigger] rows[i], preds[j]) != Some(true);
        assert(rows[i] == eval::event_row(events[i]));
        assert(!eval::passes(eval::event_row(events[i]), preds));
    }
}

/// A predicate on a field that no event has gives an error verdict, not a violation.
pub proof fn law_unknown_field_is_error(events: Seq<WalEvent>, spec: PropertySpec, j: int)
    requires
        is_plain(spec),
        events.len() > 0,
        0 <= j < spec.predicates@.len(),
        spec.predicates@[j].field@ == "watermark"@ || !property::known_path(
            spec.predicates@[j].field@,
        ) && spec.predicates@[j].field@ != "output."@,
    ensures
        eval::finding(events, spec).verdict == Verdict::Error,
{
    let rows = eval::event_rows(events);
    let preds = property::tests(spec.predicates@);
    let t = preds[j];
    assert(t.field == spec.predicates@[j].field@);
    assert(rows[0] == eval::event_row(events[0]));
    reveal_strlit("watermark");
    reveal_strlit("event_type");
    reveal_strlit("job_id");
    reveal_strlit("seq");
    reveal_strlit("output.");
    if t.field == "watermark"@ {
        assert(t.field[0] == 'w');
        assert("event_type"@[0] == 'e');
        assert("job_id"@[0] == 'j');
        assert("seq"@[0] == 's');
    } else if "output."@.is_prefix_of(t.field) {
        assert(t.field.len() == "output."@.len());
        assert(t.field =~= "output."@);
    }
    assert(eval::holds(rows[0], t) is None);
    assert(eval::first_failing(rows, t) == 0);
    assert(eval::faulty(rows, preds[j]));
    lemma_faulty_listed(rows, preds);
}

proof fn lemma_selected_len(rows: Seq<Row>, select: Seq<Test>)
    ensures
        eval::selected_rows(rows, select).len() <= rows.len(),
    decreases rows.len(),
{
    if rows.len() > 0 {
        lemma_selected_len(rows.drop_last(), select);
    }
}

proof fn lemma_matching_len(rows: Seq<Row>, preds: Seq<Test>)
    ensures
        0 <= eval::matching(rows, preds) <= rows.len(),
    decreases rows.len(),
{
    if rows.len() > 0 {
        lemma_matching_len(rows.drop_last(), preds);
    }
}

proof fn lemma_first_stuck_range(rows: Seq<Row>, preds: Seq<Test>)
    ensures
        0 <= eval::first_stuck(rows, preds) <= rows.len(),
    decreases rows.len(),
{
    if rows.len() > 0 {
        lemma_first_stuck_range(rows.skip(1), preds);
    }
}

/// The matched records are among the evaluated ones, those are the selected ones, and those are
/// among the events.
pub proof fn law_counts_nest(events: Seq<WalEvent>, spec: PropertySpec)
    ensures
        0 <= eval::finding(events, spec).matched <= eval::finding(events, spec).selected
            <= events.len(),
        eval::finding(events, spec).evaluated == eval::finding(events, spec).selected,
{
    let rows = eval::event_rows(events);
    let preds = property::tests(spec.predicates@);
    let chosen = eval::selected_rows(rows, property::tests(spec.select@));
    lemma_selected_len(rows, property::tests(spec.select@));
    lemma_matching_len(chosen, preds);
    lemma_first_stuck_range(chosen, preds);
    lemma_matching_len(chosen.take(eval::first_stuck(chosen, preds)), preds);
}

proof fn lemma_all_selected(rows: Seq<Row>, select: Seq<Test>)
    requires
        select.len() == 0,
    ensures
        eval::selected_rows(rows, select).len() == rows.len(),
    decreases rows.len(),
{
    if rows.len() > 0 {
        lemma_all_selected(rows.drop_last(), select);
    }
}

/// Where nothing is selected, "all" and "none" are satisfied, "exists" and "at least one" are
/// violated, and any other count is held against zero.
pub proof fn law_empty_selection(events: Seq<WalEvent>, spec: PropertySpec)
    requires
        chosen(events, spec).len() == 0,
    ensures
        eval::finding(events, spec).selected == 0,
        match spec.quantifier {
            Quantifier::All | Quantifier::NoneOf => eval::finding(events, spec).verdict
                == Verdict::Satisfied,
            Quantifier::Exists => eval::finding(events, spec).verdict == Verdict::Violated,
            Quantifier::Count { op, threshold } => {
                &&& eval::finding(events, spec).verdict == (if eval::count_holds(0, op, threshold) {
                    Verdict::Satisfied
                } else {
                    Verdict::Violated
                })
                &&& op == Op::Gte && threshold >= 1 ==> eval::finding(events, spec).verdict
                    == Verdict::Violated
            },
        },
{
    let rows = eval::event_rows(events);
    let preds = property::tests(spec.predicates@);
    if property::tests(spec.select@).len() == 0 {
        lemma_all_selected(rows, property::tests(spec.select@));
    }
    if is_plain(spec) {
        assert forall|i: int| 0 <= i < events.len() implies eval::passes(
            eval::event_row(#[trigger] events[i]),
            preds,
        ) by {}
        law_plain_means_all(events, spec);
    }
    if let Quantifier::Count { op, threshold } = spec.quantifier {
        if op == Op::Gte && threshold >= 1 {
            json::law_doubles_keep_order(1, threshold as nat);
            json::law_small_numbers_stay_apart(0, 1);
        }
    }
}

/// An event that the selection leaves out changes nothing, whatever its other fields hold; one in
/// which a field of the selection is missing or of the wrong kind is left out.
pub proof fn law_unselected_decide_nothing(events: Seq<WalEvent>, e: WalEvent, spec: PropertySpec)
    requires
        exists|j: int|
            0 <= j < spec.select@.len() && eval::holds(
                eval::event_row(e),
                property::tests(spec.select@)[j],
            ) != Some(true),
    ensures
        eval::finding(events.push(e), spec) == eval::finding(events, spec),
{
    let select = property::tests(spec.select@);
    let j = choose|j: int|
        0 <= j < spec.select@.len() && eval::holds(eval::event_row(e), select[j]) != Some(true);
    assert(!eval::passes(eval::event_row(e), select)) by {
        assert(eval::holds(eval::event_row(e), select[j]) != Some(true));
    }
    let rows = eval::event_rows(events.push(e));
    assert(rows.drop_last() =~= eval::event_rows(events));
    assert(rows.last() == eval::event_row(e));
}

proof fn lemma_first_stuck(rows: Seq<Row>, preds: Seq<Test>)
    ensures
        eval::first_stuck(rows, preds) < rows.len() <==> exists|i: int|
            0 <= i < rows.len() && eval::stuck_at(#[trigger] rows[i], preds) is Some,
    decreases rows.len(),
{
    lemma_first_stuck_range(rows, preds);
    if rows.len() > 0 && eval::stuck_at(rows[0], preds) is None {
        let rest = rows.skip(1);
        lemma_first_stuck(rest, preds);
        if exists|i: int| 0 <= i < rest.len() && eval::stuck_at(#[trigger] rest[i], preds) is Some {
            let i = choose|i: int|
                0 <= i < rest.len() && eval::stuck_at(#[trigger] rest[i], preds) is Some;
            assert(rows[i + 1] == rest[i]);
        }
        if exists|i: int| 0 <= i < rows.len() && eval::stuck_at(#[trigger] rows[i], preds) is Some {
            let i = choose|i: int|
                0 <= i < rows.len() && eval::stuck_at(#[trigger] rows[i], preds) is Some;
            assert(rest[i - 1] == rows[i]);
        }
    }
}

/// Items are evaluated as events are, but that without predicates all of them count: the verdict is
/// an error exactly where the evaluation of a selected item gets stuck at a field that is missing
/// or of the wrong kind, an item that the selection leaves out changes nothing, the matched items
/// are among the selected ones and those among all, and what is evaluated is what is selected.
pub proof fn law_items(rows: Seq<Row>, left_out: Row, spec: PropertySpec)
    ensures
        spec.predicates@.len() == 0 ==> generic_eval::items_finding(rows, spec).verdict
            == Verdict::Satisfied,
        generic_eval::items_finding(rows, spec).verdict == Verdict::Error <==> exists|i: int|
            0 <= i < eval::selected_rows(rows, property::tests(spec.select@)).len()
                && eval::stuck_at(
                #[trigger] eval::selected_rows(rows, property::tests(spec.select@))[i],
                property::tests(spec.predicates@),
            ) is Some,
        spec.predicates@.len() > 0 && !eval::passes(left_out, property::tests(spec.select@))
            ==> generic_eval::items_finding(rows.push(left_out), spec)
            == generic_eval::items_finding(rows, spec),
        0 <= generic_eval::items_finding(rows, spec).matched <= generic_eval::items_finding(
            rows,
            spec,
        ).selected <= rows.len(),
        generic_eval::items_finding(rows, spec).evaluated == generic_eval::items_finding(
            rows,
            spec,
        ).selected,
{
    let preds = property::tests(spec.predicates@);
    let select = property::tests(spec.select@);
    let chosen = eval::selected_rows(rows, select);
    lemma_selected_len(rows, select);
    lemma_matching_len(chosen, preds);
    lemma_first_stuck_range(chosen, preds);
    lemma_matching_len(chosen.take(eval::first_stuck(chosen, preds)), preds);
    lemma_first_stuck(chosen, preds);
    assert(rows.push(left_out).drop_last() =~= rows);
}

/// Where no item is selected, "all" and "none" are satisfied, and "exists" and "at least one" are
/// violated.
pub proof fn law_items_empty_selection(rows: Seq<Row>, spec: PropertySpec)
    requires
        spec.predicates@.len() > 0,
        eval::selected_rows(rows, property::tests(spec.select@)).len() == 0,
    ensures
        match spec.quantifier {
            Quantifier::All | Quantifier::NoneOf => generic_eval::items_finding(rows, spec).verdict
                == Verdict::Satisfied,
            Quantifier::Exists => generic_eval::items_finding(rows, spec).verdict
                == Verdict::Violated,
            Quantifier::Count { op, threshold } => op == Op::Gte && threshold >= 1
                ==> generic_eval::items_finding(rows, spec).verdict == Verdict::Violated,
        },
{
    if let Quantifier::Count { op, threshold } = spec.quantifier {
        if op == Op::Gte && threshold >= 1 {
            json::law_doubles_keep_order(1, threshold as nat);
            json::law_small_numbers_stay_apart(0, 1);
        }
    }
}

/// Every evaluation says in words what was found.
pub proof fn law_detail_populated(events: Seq<WalEvent>, spec: PropertySpec)
    ensures
        eval::finding(events, spec).detail.len() > 0,
{
    reveal_strlit("Empty predicate set: total-function satisfied by definition");
    reveal_strlit("Evaluation error on field(s): ");
    reveal_strlit("Predicate(s) violated on field(s): ");
    reveal_strlit("All ");
    reveal_strlit("Evaluation error on field '");
    reveal_strlit("Empty predicates over ");
    reveal_strlit("Empty predicates Exists over ");
    reveal_strlit("Count ");
    reveal_strlit("ALL: ");
    reveal_strlit("ALL violated: ");
    reveal_strlit("EXISTS: ");
    reveal_strlit("EXISTS violated: ");
    reveal_strlit("NONE: ");
    reveal_strlit("NONE violated: ");
    reveal_strlit("COUNT: ");
    reveal_strlit("COUNT violated: ");
}

// ---------------------------------------------------------------------------
// What a comparison means
// ---------------------------------------------------------------------------

/// Texts contain one another exactly where one stands somewhere in the other, at the beginning, in
/// the middle or at the end. A pattern is looked for in the same way.
pub proof fn law_containing(a: Seq<char>, b: Seq<char>, before: Seq<char>, behind: Seq<char>, op: Op)
    requires
        op == Op::Contains || op == Op::Regex,
    ensures
        eval::compared(Json::Text(a), op, Json::Text(b)) == Ok::<bool, Seq<char>>(
            exists|i: int|
                0 <= i <= a.len() - b.len() && #[trigger] a.subrange(i, i + b.len()) == b,
        ),
        eval::compared(Json::Text(before + b + behind), op, Json::Text(b)) == Ok::<bool, Seq<char>>(
            true,
        ),
{
    text::law_found_anywhere(a, b, before, behind);
}

/// Values without doubles are equal where they are the same value, and unequal where they are not.
pub proof fn law_equals(a: Json, b: Json)
    requires
        json::without_doubles(a),
    ensures
        eval::compared(a, Op::Eq, b) == Ok::<bool, Seq<char>>(a == b),
        eval::compared(a, Op::Neq, b) == Ok::<bool, Seq<char>>(a != b),
{
    json::law_equality(a, b, 0, Seq::empty(), 0, Seq::empty());
}

/// Numbers are compared as numbers.
pub proof fn law_orders(a: Num, b: Num)
    requires
        json::integer_of(a) matches Some(x) && -0x20_0000_0000_0000 < x < 0x20_0000_0000_0000,
        json::integer_of(b) matches Some(y) && -0x20_0000_0000_0000 < y < 0x20_0000_0000_0000,
    ensures
        ({
            let x = json::integer_of(a)->0;
            let y = json::integer_of(b)->0;
            let p = Json::Number(a);
            let q = Json::Number(b);
            &&& eval::compared(p, Op::Gt, q) == Ok::<bool, Seq<char>>(x > y)
            &&& eval::compared(p, Op::Lt, q) == Ok::<bool, Seq<char>>(x < y)
            &&& eval::compared(p, Op::Gte, q) == Ok::<bool, Seq<char>>(x >= y)
            &&& eval::compared(p, Op::Lte, q) == Ok::<bool, Seq<char>>(x <= y)
        }),
{
    json::law_integers_compare(a, b);
    json::law_integers_compare(b, a);
}

/// Doubles are compared by their places.
pub proof fn law_orders_doubles(x: i64, s: Seq<char>, y: i64, t: Seq<char>)
    ensures
        ({
            let p = Json::Number(Num::Float(x, s));
            let q = Json::Number(Num::Float(y, t));
            &&& eval::compared(p, Op::Gt, q) == Ok::<bool, Seq<char>>(x > y)
            &&& eval::compared(p, Op::Lt, q) == Ok::<bool, Seq<char>>(x < y)
            &&& eval::compared(p, Op::Gte, q) == Ok::<bool, Seq<char>>(x >= y)
            &&& eval::compared(p, Op::Lte, q) == Ok::<bool, Seq<char>>(x <= y)
            &&& eval::compared(p, Op::Eq, q) == Ok::<bool, Seq<char>>(x == y)
        }),
{
    json::law_equality(Json::Null, Json::Null, x, s, y, t);
}

/// A comparison cannot be made exactly where an order is asked of what is no number, or a text of
/// what is no text. Whether two values are equal can always be said.
pub proof fn law_incomparable(a: Json, op: Op, b: Json)
    ensures
        eval::compared(a, op, b) is Err <==> match op {
            Op::Eq | Op::Neq => false,
            Op::Gt | Op::Lt | Op::Gte | Op::Lte => !(a is Number && b is Number),
            Op::Contains | Op::Regex => !(a is Text && b is Text),
        },
{
}

/// A predicate reads the kind, the job and the number of an event, and what stands in its output
/// under a name, or under one name after another; and nothing else is a field.
pub proof fn law_fields(e: WalEvent, key: Seq<char>, inner: Seq<char>, other: Seq<char>)
    requires
        forall|i: int| 0 <= i < key.len() ==> #[trigger] key[i] != '.',
        forall|i: int| 0 <= i < inner.len() ==> #[trigger] inner[i] != '.',
    ensures
        property::field_of(e, "event_type"@) == Some(Json::Text(e.event_type.name())),
        property::field_of(e, "job_id"@) == Some(Json::Text(e.job_id@)),
        property::field_of(e, "seq"@) == Some(Json::Number(Num::PosInt(e.seq))),
        property::field_of(e, "output."@ + key) == (match e.output {
            Some(o) => json::member(o@, key),
            None => None,
        }),
        property::field_of(e, "output."@ + key + "."@ + inner) == (match e.output {
            Some(o) => match json::member(o@, key) {
                Some(v) => json::member(v, inner),
                None => None,
            },
            None => None,
        }),
        other != "event_type"@ && other != "job_id"@ && other != "seq"@ && !(exists|rest: Seq<char>|
            other == #[trigger] ("output."@ + rest)) ==> property::field_of(e, other) is None,
{
    reveal_strlit("event_type");
    reveal_strlit("job_id");
    reveal_strlit("seq");
    reveal_strlit("watermark");
    reveal_strlit("output.");
    reveal_strlit(".");
    assert("event_type"@[0] == 'e' && "job_id"@[0] == 'j' && "seq"@[0] == 's' && "watermark"@[0]
        == 'w' && "output."@[0] == 'o');
    let one = "output."@ + key;
    assert(one[0] == 'o');
    assert("output."@.is_prefix_of(one)) by {
        assert(one.take("output."@.len() as int) =~= "output."@);
    }
    assert(one.skip("output."@.len() as int) =~= key);
    assert(property::path_value(Json::Null, Seq::empty()) == Some(Json::Null));
    let two = "output."@ + key + "."@ + inner;
    assert(two[0] == 'o');
    assert("output."@.is_prefix_of(two)) by {
        assert(two.take("output."@.len() as int) =~= "output."@);
    }
    assert(two.skip("output."@.len() as int) =~= key.push('.') + inner);
    text::lemma_pieces_behind(key, '.', inner);
    let p1 = text::pieces(key, '.');
    text::lemma_pieces_of_one(key, '.');
    text::lemma_pieces_of_one(inner, '.');
    assert(p1 == seq![key]);
    assert(p1.skip(1) =~= Seq::<Seq<char>>::empty());
    let p2 = text::pieces(key.push('.') + inner, '.');
    assert(p2 =~= seq![key, inner]);
    assert(p2.skip(1) =~= seq![inner]);
    assert(seq![inner].skip(1) =~= Seq::<Seq<char>>::empty());
    if let Some(o) = e.output {
        reveal_with_fuel(property::path_value, 3);
    }
    if "output."@.is_prefix_of(other) {
        let rest = other.skip("output."@.len() as int);
        assert(other =~= "output."@ + rest);
    }
}

/// The kinds of events are told apart by their names.
pub proof fn law_event_names(a: WalEventType, b: WalEventType)
    ensures
        a != b ==> a.name() != b.name(),
        WalEventType::JobStarted.name() == "job_started"@,
        WalEventType::JobCompleted.name() == "job_completed"@,
        WalEventType::JobFailed.name() == "job_failed"@,
        WalEventType::BackupCreated.name() == "backup_created"@,
        WalEventType::CommandExecuted.name() == "command_executed"@,
        WalEventType::ObserveStarted.name() == "observe_started"@,
        WalEventType::ObserveSuspended.name() == "observe_suspended"@,
        WalEventType::ObserveTruncated.name() == "observe_truncated"@,
        WalEventType::ObserveBatch.name() == "observe_batch"@,
        WalEventType::ObserveCompleted.name() == "observe_completed"@,
{
    reveal_strlit("job_started");
    reveal_strlit("job_completed");
    reveal_strlit("job_failed");
    reveal_strlit("backup_created");
    reveal_strlit("command_executed");
    reveal_strlit("observe_started");
    reveal_strlit("observe_suspended");
    reveal_strlit("observe_truncated");
    reveal_strlit("observe_batch");
    reveal_strlit("observe_completed");
    let x = a.name();
    let y = b.name();
    assert("job_started"@[4] == 's' && "job_completed"@[4] == 'c' && "job_failed"@[4] == 'f');
    assert("backup_created"@[0] == 'b' && "command_executed"@[0] == 'c');
    assert("observe_started"@[0] == 'o' && "observe_started"@.len() == 15
        && "observe_suspended"@.len() == 17 && "observe_truncated"@.len() == 17
        && "observe_batch"@.len() == 13 && "observe_completed"@.len() == 17);
    assert("observe_suspended"@[8] == 's' && "observe_truncated"@[8] == 't'
        && "observe_completed"@[8] == 'c');
    assert("job_started"@[0] == 'j' && "job_completed"@[0] == 'j' && "job_failed"@[0] == 'j');
    assert("observe_suspended"@[0] == 'o' && "observe_truncated"@[0] == 'o' && "observe_batch"@[0]
        == 'o' && "observe_completed"@[0] == 'o');
    if a != b && x == y {
        assert(x.len() == y.len() && x[0] == y[0] && x[4] == y[4]);
        if x.len() > 8 {
            assert(x[8] == y[8]);
        }
    }
}

// ---------------------------------------------------------------------------
// What a verdict means
// ---------------------------------------------------------------------------

/// A record meets all of some predicates: each names a field that it has, and compares with it as
/// asked.
pub open spec fn meets(row: Row, preds: Seq<Test>) -> bool {
    forall|j: int|
        0 <= j < preds.len() ==> #[trigger] row(preds[j].field) is Some && eval::compared(
            row(preds[j].field)->0,
            preds[j].op,
            preds[j].value,
        ) == Ok::<bool, Seq<char>>(true)
}

proof fn lemma_meets(row: Row, preds: Seq<Test>)
    ensures
        meets(row, preds) == eval::passes(row, preds),
{
    if meets(row, preds) {
        assert forall|j: int| 0 <= j < preds.len() implies eval::holds(row, #[trigger] preds[j])
            == Some(true) by {
            assert(row(preds[j].field) is Some);
        }
    }
    if eval::passes(row, preds) {
        assert forall|j: int| 0 <= j < preds.len() implies #[trigger] row(preds[j].field) is Some
            && eval::compared(row(preds[j].field)->0, preds[j].op, preds[j].value) == Ok::<
            bool,
            Seq<char>,
        >(true) by {
            assert(eval::holds(row, preds[j]) == Some(true));
        }
    }
}

/// The places of the records that meet some predicates.
pub open spec fn met_places(rows: Seq<Row>, preds: Seq<Test>) -> Set<int> {
    Set::new(|i: int| 0 <= i < rows.len() && meets(rows[i], preds))
}

proof fn lemma_met_places(rows: Seq<Row>, preds: Seq<Test>)
    ensures
        met_places(rows, preds).finite(),
        eval::matching(rows, preds) == met_places(rows, preds).len(),
    decreases rows.len(),
{
    let all = met_places(rows, preds);
    if rows.len() == 0 {
        assert(all =~= Set::<int>::empty());
    } else {
        let rest = rows.drop_last();
        let some = met_places(rest, preds);
        lemma_met_places(rest, preds);
        let k = rows.len() - 1;
        assert forall|i: int| i != k implies some.contains(i) == #[trigger] all.contains(i) by {
            if 0 <= i < rest.len() {
                assert(rest[i] == rows[i]);
            }
        }
        lemma_meets(rows[k], preds);
        if meets(rows[k], preds) {
            assert(all =~= some.insert(k));
        } else {
            assert(all =~= some);
        }
    }
}

/// The selected records are those that meet the selection, each once and in their order.
pub proof fn law_selection(rows: Seq<Row>, row: Row, select: Seq<Test>)
    ensures
        eval::selected_rows(rows.push(row), select) == eval::selected_rows(rows, select) + (if meets(
            row,
            select,
        ) {
            seq![row]
        } else {
            Seq::empty()
        }),
        eval::selected_rows(Seq::empty(), select) == Seq::<Row>::empty(),
{
    assert(rows.push(row).drop_last() =~= rows);
    lemma_meets(row, select);
    let some = eval::selected_rows(rows, select);
    assert(some + seq![row] =~= some.push(row));
    assert(some + Seq::<Row>::empty() =~= some);
}

/// Every record can be evaluated: it meets each predicate up to the first that it violates.
pub open spec fn clear(rows: Seq<Row>, preds: Seq<Test>) -> bool {
    forall|i: int, j: int|
        0 <= i < rows.len() && 0 <= j < preds.len() ==> {
            let v = #[trigger] rows[i](#[trigger] preds[j].field);
            v is Some && eval::compared(v->0, preds[j].op, preds[j].value) is Ok
        }
}

proof fn lemma_clear_unstuck(rows: Seq<Row>, preds: Seq<Test>)
    requires
        clear(rows, preds),
    ensures
        eval::first_stuck(rows, preds) >= rows.len(),
{
    lemma_first_stuck(rows, preds);
    lemma_first_stuck_range(rows, preds);
    assert forall|i: int| 0 <= i < rows.len() implies eval::stuck_at(#[trigger] rows[i], preds)
        is None by {
        lemma_first_unmet(rows[i], preds);
        let j = eval::first_unmet(rows[i], preds);
        if j < preds.len() {
            let v = rows[i](preds[j].field);
            assert(v is Some);
        }
    }
}

proof fn lemma_first_unmet(row: Row, preds: Seq<Test>)
    ensures
        0 <= eval::first_unmet(row, preds) <= preds.len(),
        forall|j: int|
            0 <= j < eval::first_unmet(row, preds) ==> eval::holds(row, #[trigger] preds[j])
                == Some(true),
        eval::first_unmet(row, preds) < preds.len() ==> eval::holds(
            row,
            preds[eval::first_unmet(row, preds)],
        ) != Some(true),
    decreases preds.len(),
{
    if preds.len() > 0 && eval::holds(row, preds[0]) == Some(true) {
        let rest = preds.skip(1);
        lemma_first_unmet(row, rest);
        assert forall|j: int| 0 <= j < eval::first_unmet(row, preds) implies eval::holds(
            row,
            #[trigger] preds[j],
        ) == Some(true) by {
            if j > 0 {
                assert(rest[j - 1] == preds[j]);
            }
        }
        if eval::first_unmet(row, preds) < preds.len() {
            assert(rest[eval::first_unmet(row, rest)] == preds[eval::first_unmet(row, preds)]);
        }
    }
}

/// A number is as a quantifier asks.
pub open spec fn as_asked(m: int, op: Op, threshold: u64) -> bool {
    match op {
        Op::Eq => m == threshold,
        Op::Neq => m != threshold,
        Op::Gt => m > threshold,
        Op::Lt => m < threshold,
        Op::Gte => m >= threshold,
        Op::Lte => m <= threshold,
        Op::Contains | Op::Regex => false,
    }
}

/// Where every selected record can be evaluated, "all" is satisfied exactly where each of them meets
/// the predicates, "exists" where one does, "none" where none does, and a count where as many do as
/// it asks. What is given as matched is the number of those that do.
pub proof fn law_quantifiers(
    rows: Seq<Row>,
    name: Seq<char>,
    select: Seq<Test>,
    preds: Seq<Test>,
    q: Quantifier,
)
    requires
        preds.len() > 0,
        rows.len() < 0x20_0000_0000_0000,
        clear(eval::selected_rows(rows, select), preds),
        q matches Quantifier::Count { threshold, .. } ==> threshold < 0x20_0000_0000_0000,
    ensures
        ({
            let f = eval::quantified_finding(rows, name, select, preds, q);
            let chosen = eval::selected_rows(rows, select);
            let met = met_places(chosen, preds);
            &&& met.finite()
            &&& f.selected == chosen.len()
            &&& f.evaluated == chosen.len()
            &&& f.matched == met.len()
            &&& f.name == name
            &&& f.verdict == (if (match q {
                Quantifier::All => forall|i: int|
                    0 <= i < chosen.len() ==> meets(#[trigger] chosen[i], preds),
                Quantifier::Exists => exists|i: int|
                    0 <= i < chosen.len() && meets(#[trigger] chosen[i], preds),
                Quantifier::NoneOf => forall|i: int|
                    0 <= i < chosen.len() ==> !meets(#[trigger] chosen[i], preds),
                Quantifier::Count { op, threshold } => as_asked(met.len() as int, op, threshold),
            }) {
                Verdict::Satisfied
            } else {
                Verdict::Violated
            })
        }),
{
    let chosen = eval::selected_rows(rows, select);
    lemma_clear_unstuck(chosen, preds);
    lemma_met_places(chosen, preds);
    lemma_selected_len(rows, select);
    lemma_matching_len(chosen, preds);
    lemma_met_extent(chosen, preds);
    if let Quantifier::Count { op, threshold } = q {
        lemma_count(eval::matching(chosen, preds), op, threshold);
    }
}

proof fn lemma_met_extent(rows: Seq<Row>, preds: Seq<Test>)
    ensures
        eval::matching(rows, preds) == rows.len() <==> forall|i: int|
            0 <= i < rows.len() ==> meets(#[trigger] rows[i], preds),
        eval::matching(rows, preds) == 0 <==> forall|i: int|
            0 <= i < rows.len() ==> !meets(#[trigger] rows[i], preds),
    decreases rows.len(),
{
    lemma_matching_len(rows, preds);
    if rows.len() > 0 {
        let rest = rows.drop_last();
        let k = rows.len() - 1;
        lemma_met_extent(rest, preds);
        lemma_matching_len(rest, preds);
        lemma_meets(rows[k], preds);
        assert(forall|i: int| 0 <= i < rest.len() ==> rest[i] == rows[i]);
        if eval::matching(rows, preds) == rows.len() {
            assert forall|i: int| 0 <= i < rows.len() implies meets(#[trigger] rows[i], preds) by {
                if i < k {
                    assert(meets(rest[i], preds));
                }
            }
        }
        if eval::matching(rows, preds) == 0 {
            assert forall|i: int| 0 <= i < rows.len() implies !meets(#[trigger] rows[i], preds) by {
                if i < k {
                    assert(!meets(rest[i], preds));
                }
            }
        }
        if forall|i: int| 0 <= i < rows.len() ==> meets(#[trigger] rows[i], preds) {
            assert(meets(rows[k], preds));
            assert forall|i: int| 0 <= i < rest.len() implies meets(#[trigger] rest[i], preds) by {
                assert(meets(rows[i], preds));
            }
        }
        if forall|i: int| 0 <= i < rows.len() ==> !meets(#[trigger] rows[i], preds) {
            assert(!meets(rows[k], preds));
            assert forall|i: int| 0 <= i < rest.len() implies !meets(#[trigger] rest[i], preds) by {
                assert(!meets(rows[i], preds));
            }
        }
    }
}

proof fn lemma_count(m: int, op: Op, threshold: u64)
    requires
        0 <= m < 0x20_0000_0000_0000,
        threshold < 0x20_0000_0000_0000,
    ensures
        eval::count_holds(m, op, threshold) == as_asked(m, op, threshold),
        generic_eval::count_passes(m, op, threshold) == as_asked(m, op, threshold),
{
    let a = Num::PosInt(m as u64);
    let b = Num::PosInt(threshold);
    law_orders(a, b);
    law_equals(Json::Number(a), Json::Number(b));
    json::law_integers_compare(a, b);
    json::law_integers_compare(b, a);
}

/// A property with a selection, a quantifier or a version goes by the quantifier; and where every
/// event can be evaluated, one without any of them gives the verdict that it gives with the quantifier
/// "all".
pub proof fn law_plain_is_all(events: Seq<WalEvent>, spec: PropertySpec)
    requires
        is_plain(spec),
        spec.predicates@.len() > 0,
        events.len() < 0x20_0000_0000_0000,
        clear(eval::event_rows(events), property::tests(spec.predicates@)),
    ensures
        eval::finding(events, spec).verdict == eval::quantified_finding(
            eval::event_rows(events),
            spec.name@,
            property::tests(spec.select@),
            property::tests(spec.predicates@),
            Quantifier::All,
        ).verdict,
        eval::finding(events, spec).selected == events.len(),
        eval::finding(events, spec).name == spec.name@,
{
    let rows = eval::event_rows(events);
    let preds = property::tests(spec.predicates@);
    let select = property::tests(spec.select@);
    lemma_select_all(rows, select);
    law_quantifiers(rows, spec.name@, select, preds, Quantifier::All);
    law_plain_means_all(events, spec);
    assert forall|i: int| 0 <= i < events.len() implies eval::passes(
        eval::event_row(#[trigger] events[i]),
        preds,
    ) == meets(rows[i], preds) by {
        lemma_meets(rows[i], preds);
        assert(rows[i] == eval::event_row(events[i]));
    }
    lemma_faulty_listed(rows, preds);
    assert forall|j: int| 0 <= j < preds.len() implies !eval::faulty(rows, #[trigger] preds[j]) by {
        lemma_first_failing(rows, preds[j]);
        let i = eval::first_failing(rows, preds[j]);
        if i < rows.len() {
            let v = rows[i](preds[j].field);
            assert(v is Some);
        }
    }
    if forall|i: int|
        0 <= i < events.len() ==> eval::passes(eval::event_row(#[trigger] events[i]), preds) {
        assert forall|i: int| 0 <= i < rows.len() implies meets(#[trigger] rows[i], preds) by {
            assert(eval::passes(eval::event_row(events[i]), preds));
        }
    } else {
        let i = choose|i: int|
            0 <= i < events.len() && !eval::passes(eval::event_row(#[trigger] events[i]), preds);
        assert(!meets(rows[i], preds));
    }
}

proof fn lemma_select_all(rows: Seq<Row>, select: Seq<Test>)
    requires
        select.len() == 0,
    ensures
        eval::selected_rows(rows, select) == rows,
    decreases rows.len(),
{
    if rows.len() > 0 {
        lemma_select_all(rows.drop_last(), select);
        assert(rows.drop_last().push(rows.last()) =~= rows);
    } else {
        assert(rows =~= Seq::<Row>::empty());
    }
}

/// Where a plain property cannot be evaluated or does not hold: an error comes exactly where some
/// predicate holds of every event up to one on which it cannot be evaluated; a violation where none
/// does and some predicate is false of an event.
pub proof fn law_errors_come_first(events: Seq<WalEvent>, spec: PropertySpec)
    requires
        is_plain(spec),
    ensures
        eval::finding(events, spec).verdict == Verdict::Error <==> exists|j: int, i: int|
            #![trigger property::tests(spec.predicates@)[j], events[i]]
            0 <= j < spec.predicates@.len() && 0 <= i < events.len() && cannot_tell(
                events[i],
                property::tests(spec.predicates@)[j],
            ) && forall|k: int|
                0 <= k < i ==> meets(
                    eval::event_row(#[trigger] events[k]),
                    seq![property::tests(spec.predicates@)[j]],
                ),
{
    let rows = eval::event_rows(events);
    let preds = property::tests(spec.predicates@);
    lemma_faulty_listed(rows, preds);
    lemma_broken_listed(rows, preds);
    if exists|j: int| 0 <= j < preds.len() && eval::faulty(rows, #[trigger] preds[j]) {
        let j = choose|j: int| 0 <= j < preds.len() && eval::faulty(rows, #[trigger] preds[j]);
        lemma_first_failing(rows, preds[j]);
        let i = eval::first_failing(rows, preds[j]);
        assert(rows[i] == eval::event_row(events[i]));
        assert(cannot_tell(events[i], preds[j]));
        assert forall|k: int| 0 <= k < i implies meets(
            eval::event_row(#[trigger] events[k]),
            seq![preds[j]],
        ) by {
            assert(eval::holds(rows[k], preds[j]) == Some(true));
            assert(rows[k] == eval::event_row(events[k]));
        }
    }
    if exists|j: int, i: int|
        #![trigger preds[j], events[i]]
        0 <= j < preds.len() && 0 <= i < events.len() && cannot_tell(events[i], preds[j])
            && forall|k: int|
            0 <= k < i ==> meets(eval::event_row(#[trigger] events[k]), seq![preds[j]]) {
        let (j, i) = choose|j: int, i: int|
            #![trigger preds[j], events[i]]
            0 <= j < preds.len() && 0 <= i < events.len() && cannot_tell(events[i], preds[j])
                && forall|k: int|
                0 <= k < i ==> meets(eval::event_row(#[trigger] events[k]), seq![preds[j]]);
        lemma_first_failing(rows, preds[j]);
        let f = eval::first_failing(rows, preds[j]);
        assert(rows[i] == eval::event_row(events[i]));
        assert(eval::holds(rows[i], preds[j]) is None);
        if f < i {
            assert(meets(eval::event_row(events[f]), seq![preds[j]]));
            assert(rows[f] == eval::event_row(events[f]));
            assert(seq![preds[j]][0] == preds[j]);
            let v = rows[f](seq![preds[j]][0].field);
            assert(v is Some);
        }
        assert(eval::faulty(rows, preds[j]));
    }
}

/// A predicate cannot be evaluated on an event: the field is missing, or of the wrong kind.
pub open spec fn cannot_tell(e: WalEvent, t: Test) -> bool {
    match property::field_of(e, t.field) {
        Some(v) => eval::compared(v, t.op, t.value) is Err,
        None => true,
    }
}

/// Items are quantified as events are: where every selected item can be evaluated, "all" is satisfied
/// exactly where each of them meets the predicates, "exists" where one does, "none" where none does,
/// and a count where as many do as it asks.
pub proof fn law_items_quantifiers(rows: Seq<Row>, spec: PropertySpec)
    requires
        spec.predicates@.len() > 0,
        rows.len() < 0x20_0000_0000_0000,
        clear(
            eval::selected_rows(rows, property::tests(spec.select@)),
            property::tests(spec.predicates@),
        ),
        spec.quantifier matches Quantifier::Count { threshold, .. } ==> threshold
            < 0x20_0000_0000_0000,
    ensures
        ({
            let preds = property::tests(spec.predicates@);
            let f = generic_eval::items_finding(rows, spec);
            let chosen = eval::selected_rows(rows, property::tests(spec.select@));
            let met = met_places(chosen, preds);
            &&& f.selected == chosen.len()
            &&& f.matched == met.len()
            &&& f.name == spec.name@
            &&& f.verdict == (if (match spec.quantifier {
                Quantifier::All => forall|i: int|
                    0 <= i < chosen.len() ==> meets(#[trigger] chosen[i], preds),
                Quantifier::Exists => exists|i: int|
                    0 <= i < chosen.len() && meets(#[trigger] chosen[i], preds),
                Quantifier::NoneOf => forall|i: int|
                    0 <= i < chosen.len() ==> !meets(#[trigger] chosen[i], preds),
                Quantifier::Count { op, threshold } => as_asked(met.len() as int, op, threshold),
            }) {
                Verdict::Satisfied
            } else {
                Verdict::Violated
            })
        }),
{
    let preds = property::tests(spec.predicates@);
    let select = property::tests(spec.select@);
    let chosen = eval::selected_rows(rows, select);
    lemma_clear_unstuck(chosen, preds);
    lemma_met_places(chosen, preds);
    lemma_selected_len(rows, select);
    lemma_matching_len(chosen, preds);
    lemma_met_extent(chosen, preds);
    if let Quantifier::Count { op, threshold } = spec.quantifier {
        lemma_count(eval::matching(chosen, preds), op, threshold);
    }
}

/// Where a selected record cannot be evaluated before it violates a predicate, the verdict is an
/// error, whatever the quantifier; and only then.
pub proof fn law_stuck_is_error(
    rows: Seq<Row>,
    name: Seq<char>,
    select: Seq<Test>,
    preds: Seq<Test>,
    q: Quantifier,
)
    requires
        preds.len() > 0,
    ensures
        eval::quantified_finding(rows, name, select, preds, q).verdict == Verdict::Error
            <==> exists|i: int, j: int|
            #![trigger eval::selected_rows(rows, select)[i], preds[j]]
            0 <= i < eval::selected_rows(rows, select).len() && 0 <= j < preds.len() && meets(
                eval::selected_rows(rows, select)[i],
                preds.take(j),
            ) && (match eval::selected_rows(rows, select)[i](preds[j].field) {
                Some(v) => eval::compared(v, preds[j].op, preds[j].value) is Err,
                None => true,
            }),
{
    let chosen = eval::selected_rows(rows, select);
    lemma_first_stuck(chosen, preds);
    lemma_first_stuck_range(chosen, preds);
    if exists|i: int| 0 <= i < chosen.len() && eval::stuck_at(#[trigger] chosen[i], preds) is Some {
        let i = choose|i: int|
            0 <= i < chosen.len() && eval::stuck_at(#[trigger] chosen[i], preds) is Some;
        lemma_first_unmet(chosen[i], preds);
        let j = eval::first_unmet(chosen[i], preds);
        lemma_meets(chosen[i], preds.take(j));
        assert forall|k: int| 0 <= k < j implies eval::holds(chosen[i], #[trigger] preds.take(j)[k])
            == Some(true) by {
            assert(preds.take(j)[k] == preds[k]);
        }
        assert(eval::holds(chosen[i], preds[j]) is None);
    }
    if exists|i: int, j: int|
        #![trigger chosen[i], preds[j]]
        0 <= i < chosen.len() && 0 <= j < preds.len() && meets(chosen[i], preds.take(j)) && (
        match chosen[i](preds[j].field) {
            Some(v) => eval::compared(v, preds[j].op, preds[j].value) is Err,
            None => true,
        }) {
        let (i, j) = choose|i: int, j: int|
            #![trigger chosen[i], preds[j]]
            0 <= i < chosen.len() && 0 <= j < preds.len() && meets(chosen[i], preds.take(j)) && (
            match chosen[i](preds[j].field) {
                Some(v) => eval::compared(v, preds[j].op, preds[j].value) is Err,
                None => true,
            });
        lemma_meets(chosen[i], preds.take(j));
        lemma_first_unmet(chosen[i], preds);
        let f = eval::first_unmet(chosen[i], preds);
        assert(eval::holds(chosen[i], preds[j]) is None);
        if f < j {
            assert(preds.take(j)[f] == preds[f]);
            assert(eval::holds(chosen[i], preds.take(j)[f]) == Some(true));
        }
        assert(f == j);
        assert(eval::stuck_at(chosen[i], preds) is Some);
    }
}

/// A property can be read exactly where each predicate is on a field that there is, and orders only
/// numbers.
pub proof fn law_readable(t: Test, rest: Seq<char>)
    ensures
        property::known_path("event_type"@) && property::known_path("job_id"@)
            && property::known_path("seq"@) && property::known_path("watermark"@),
        rest.len() > 0 ==> property::known_path("output."@ + rest),
        !property::known_path("output."@),
        property::known_path(t.field) ==> t.field == "event_type"@ || t.field == "job_id"@ || t.field
            == "seq"@ || t.field == "watermark"@ || exists|r: Seq<char>|
            r.len() > 0 && t.field == #[trigger] ("output."@ + r),
        property::op_fits(t) <==> (t.op == Op::Gt || t.op == Op::Lt || t.op == Op::Gte || t.op
            == Op::Lte ==> t.value is Number),
{
    reveal_strlit("output.");
    reveal_strlit("event_type");
    reveal_strlit("job_id");
    reveal_strlit("seq");
    reveal_strlit("watermark");
    assert("output."@[0] == 'o' && "event_type"@[0] == 'e' && "job_id"@[0] == 'j' && "seq"@[0] == 's'
        && "watermark"@[0] == 'w');
    let f = "output."@ + rest;
    assert(f.take("output."@.len() as int) =~= "output."@);
    if "output."@.is_prefix_of(t.field) {
        let r = t.field.skip("output."@.len() as int);
        assert(t.field =~= "output."@ + r);
    }
}


/// A property with a selection, with a quantifier or with a version goes by the quantifier, over
/// the records that it selects.
pub proof fn law_quantified_properties(events: Seq<WalEvent>, spec: PropertySpec)
    requires
        spec.select@.len() > 0 || spec.quantifier != Quantifier::All || spec.version is Some,
    ensures
        eval::finding(events, spec) == eval::quantified_finding(
            eval::event_rows(events),
            spec.name@,
            property::tests(spec.select@),
            property::tests(spec.predicates@),
            spec.quantifier,
        ),
{
    assert(property::tests(spec.select@).len() == spec.select@.len());
}

/// Without predicates "all" and "none" are satisfied, "exists" exactly where something is selected,
/// and a count by how much is; all that is selected counts as matched.
pub proof fn law_bare_quantifiers(
    rows: Seq<Row>,
    name: Seq<char>,
    select: Seq<Test>,
    q: Quantifier,
)
    requires
        rows.len() < 0x20_0000_0000_0000,
        q matches Quantifier::Count { threshold, .. } ==> threshold < 0x20_0000_0000_0000,
    ensures
        ({
            let f = eval::quantified_finding(rows, name, select, Seq::empty(), q);
            let n = eval::selected_rows(rows, select).len();
            &&& f.name == name
            &&& f.selected == n && f.evaluated == n && f.matched == n
            &&& q == Quantifier::All || q == Quantifier::NoneOf ==> f.verdict == Verdict::Satisfied
                && f.detail == "Empty predicates over "@ + text::decimal(n) + " selected: satisfied"@
            &&& q == Quantifier::Exists ==> f.verdict == (if n > 0 {
                Verdict::Satisfied
            } else {
                Verdict::Violated
            }) && f.detail == "Empty predicates Exists over "@ + text::decimal(n) + " selected"@
            &&& q is Count ==> f.verdict == (if as_asked(n as int, q->op, q->threshold) {
                Verdict::Satisfied
            } else {
                Verdict::Violated
            }) && f.detail == "Count "@ + text::decimal(n) + " "@ + q->op.name() + " "@
                + text::decimal(q->threshold as nat) + " (empty predicates)"@
        }),
{
    lemma_selected_shorter(rows, select);
    if q is Count {
        let n = eval::selected_rows(rows, select).len();
        lemma_counts_as_asked(n as int, q->op, q->threshold);
    }
}

proof fn lemma_selected_shorter(rows: Seq<Row>, select: Seq<Test>)
    ensures
        eval::selected_rows(rows, select).len() <= rows.len(),
    decreases rows.len(),
{
    if rows.len() > 0 {
        lemma_selected_shorter(rows.drop_last(), select);
    }
}

proof fn lemma_counts_as_asked(m: int, op: Op, threshold: u64)
    requires
        0 <= m < 0x20_0000_0000_0000,
        threshold < 0x20_0000_0000_0000,
    ensures
        eval::count_holds(m, op, threshold) == as_asked(m, op, threshold),
{
    let a = Num::PosInt(m as u64);
    let b = Num::PosInt(threshold);
    assert(json::integer_of(a) == Some(m) && json::integer_of(b) == Some(threshold as int));
    law_orders(a, b);
    law_equals(Json::Number(a), Json::Number(b));
}

/// What a verdict under a quantifier says in words: how many of how many meet the predicates.
pub proof fn law_words_of_quantifiers(q: Quantifier, m: int, n: int)
    ensures
        ({
            let (verdict, words) = eval::quantified(q, m, n);
            let tail = text::decimal(m as nat) + "/"@ + text::decimal(n as nat) + " satisfy"@;
            &&& q == Quantifier::All && verdict == Verdict::Satisfied ==> words =~= "ALL: "@ + tail
            &&& q == Quantifier::All && verdict == Verdict::Violated ==> words
                =~= "ALL violated: "@ + tail
            &&& q == Quantifier::Exists && verdict == Verdict::Satisfied ==> words
                =~= "EXISTS: "@ + tail
            &&& q == Quantifier::Exists && verdict == Verdict::Violated ==> words
                =~= "EXISTS violated: "@ + text::decimal(0) + "/"@ + text::decimal(n as nat)
                + " satisfy"@
            &&& q == Quantifier::NoneOf && verdict == Verdict::Satisfied ==> words
                =~= "NONE: "@ + text::decimal(0) + "/"@ + text::decimal(n as nat) + " satisfy"@
            &&& q == Quantifier::NoneOf && verdict == Verdict::Violated ==> words
                =~= "NONE violated: "@ + tail
        }),
{
}

/// What a verdict without a quantifier says in words: the fields that could not be evaluated, else
/// the fields that are violated, else how many predicates hold.
pub proof fn law_words_of_plain_properties(rows: Seq<Row>, name: Seq<char>, preds: Seq<Test>)
    ensures
        ({
            let f = eval::plain_finding(rows, name, preds);
            let faults = eval::faulty_fields(rows, preds);
            let breaks = eval::broken_fields(rows, preds);
            &&& f.name == name && f.selected == rows.len() && f.evaluated == rows.len()
            &&& f.verdict == Verdict::Satisfied ==> f.matched == rows.len()
            &&& f.verdict != Verdict::Satisfied ==> f.matched == 0
            &&& f.verdict == Verdict::Error ==> faults.len() > 0 && f.detail
                == "Evaluation error on field(s): "@ + text::joined(faults, ", "@)
                + "; predicate could not be evaluated"@
            &&& f.verdict == Verdict::Violated ==> faults.len() == 0 && breaks.len() > 0 && f.detail
                == "Predicate(s) violated on field(s): "@ + text::joined(breaks, ", "@)
                + "; expected all predicates to hold"@
            &&& f.verdict == Verdict::Satisfied && preds.len() > 0 ==> faults.len() == 0
                && breaks.len() == 0 && f.detail == "All "@ + text::decimal(preds.len())
                + " predicate(s) satisfied"@
            &&& preds.len() == 0 ==> f.verdict == Verdict::Satisfied && f.detail
                == "Empty predicate set: total-function satisfied by definition"@
        }),
{
}

/// A path leads through an output name by name.
pub proof fn law_paths(v: Json, a: Seq<Seq<char>>, b: Seq<Seq<char>>, key: Seq<char>)
    ensures
        property::path_value(v, Seq::empty()) == Some(v),
        property::path_value(v, seq![key]) == json::member(v, key),
        property::path_value(v, a + b) == (match property::path_value(v, a) {
            Some(x) => property::path_value(x, b),
            None => None,
        }),
    decreases a.len(),
{
    assert(seq![key].skip(1) =~= Seq::<Seq<char>>::empty());
    if json::member(v, key) is Some {
        assert(property::path_value(json::member(v, key)->0, seq![key].skip(1)) == json::member(
            v,
            key,
        ));
    }
    if a.len() == 0 {
        assert(a + b =~= b);
    } else {
        assert((a + b).skip(1) =~= a.skip(1) + b);
        if json::member(v, a[0]) is Some {
            law_paths(json::member(v, a[0])->0, a.skip(1), b, key);
        }
    }
}

/// Each operator goes by its own name.
pub proof fn law_operators(op: Op)
    ensures
        Op::Eq.name() == "Eq"@,
        Op::Neq.name() == "Neq"@,
        Op::Gt.name() == "Gt"@,
        Op::Lt.name() == "Lt"@,
        Op::Gte.name() == "Gte"@,
        Op::Lte.name() == "Lte"@,
        Op::Contains.name() == "Contains"@,
        Op::Regex.name() == "Regex"@,
        op.numeric() <==> op == Op::Gt || op == Op::Lt || op == Op::Gte || op == Op::Lte,
{
}

/// A property that is read holds what was written, and is refused exactly where some predicate is on
/// a field that there is not, or orders what is no number; the first such predicate is named.
pub proof fn law_reading(
    w: property::SpecWrapper,
    r: Result<PropertySpec, property::ParseSpecError>,
)
    requires
        call_ensures(
            property::parse_spec,
            (Ok::<property::SpecWrapper, String>(w),),
            r,
        ),
    ensures
        r is Ok ==> r->Ok_0.name == w.name && r->Ok_0.predicates == w.predicates && r->Ok_0.select
            == w.select && r->Ok_0.quantifier == w.quantifier && r->Ok_0.version == w.version,
        r is Ok ==> forall|i: int|
            0 <= i < w.predicates@.len() ==> property::known_path(
                (#[trigger] w.predicates@[i]).field@,
            ) && (w.predicates@[i].op.numeric() ==> w.predicates@[i].value@ is Number),
        r is Err ==> exists|i: int|
            {
                &&& 0 <= i < w.predicates@.len()
                &&& forall|j: int|
                    0 <= j < i ==> property::known_path((#[trigger] w.predicates@[j]).field@)
                &&& !property::known_path((#[trigger] w.predicates@[i]).field@) || (
                w.predicates@[i].op.numeric() && !(w.predicates@[i].value@ is Number))
                &&& !property::known_path(w.predicates@[i].field@) ==> (r->Err_0).text()
                    == "Invalid field path '"@ + w.predicates@[i].field@ + "': "@ + (
                "Field path '"@ + w.predicates@[i].field@
                    + "' is not a recognized path. Supported: event_type, job_id, seq, output.<key>, watermark"@)
                &&& property::known_path(w.predicates@[i].field@) ==> (r->Err_0).text()
                    == "Op/type mismatch on field '"@ + w.predicates@[i].field@ + "': "@ + (
                "Operator "@ + w.predicates@[i].op.name() + " requires a numeric value, got "@
                    + json::compact(w.predicates@[i].value@))
            },
{
    let p = property::tests(w.predicates@);
    assert(p.len() == w.predicates@.len());
    assert(forall|i: int|
        0 <= i < p.len() ==> p[i].field == (#[trigger] w.predicates@[i]).field@ && p[i].op
            == w.predicates@[i].op && p[i].value == w.predicates@[i].value@);
    if r is Ok {
        assert forall|i: int| 0 <= i < w.predicates@.len() implies property::known_path(
            (#[trigger] w.predicates@[i]).field@,
        ) && (w.predicates@[i].op.numeric() ==> w.predicates@[i].value@ is Number) by {
            assert(property::known_path(p[i].field) && property::op_fits(p[i]));
        }
    } else {
        let e = r->Err_0;
        let i = choose|i: int|
            #![trigger p[i]]
            0 <= i < p.len() && (forall|j: int|
                0 <= j < i ==> property::known_path((#[trigger] p[j]).field) && property::op_fits(
                    p[j],
                )) && (match e {
                property::ParseSpecError::InvalidFieldPath { field, message } => {
                    !property::known_path(p[i].field) && field@ == p[i].field && message@
                        == property::path_message(p[i].field)
                },
                property::ParseSpecError::OpTypeMismatch { field, message } => {
                    property::known_path(p[i].field) && !property::op_fits(p[i]) && field@
                        == p[i].field && message@ == property::op_message(p[i])
                },
                property::ParseSpecError::InvalidFormat(_) => false,
            });
        assert(w.predicates@[i].field@ == p[i].field);
        assert forall|j: int| 0 <= j < i implies property::known_path(
            (#[trigger] w.predicates@[j]).field@,
        ) by {
            assert(property::known_path(p[j].field));
        }
    }
}

/// What cannot be decoded says so.
pub proof fn law_undecoded(why: String, r: Result<PropertySpec, property::ParseSpecError>)
    requires
        call_ensures(
            property::parse_spec,
            (Err::<property::SpecWrapper, String>(why),),
            r,
        ),
    ensures
        r is Err,
        (r->Err_0).text() == "Parse error: "@ + ("JSON parse error: "@ + why@),
{
}


/// A comparison that cannot be made names the value that is of the wrong kind, whose it is, and
/// what it was to be.
pub proof fn law_words_of_comparisons(a: Json, b: Json, op: Op)
    ensures
        op.numeric() && !(a is Number) ==> eval::compared(a, op, b) == Err::<bool, Seq<char>>(
            "Cannot coerce "@ + "field"@ + " value "@ + json::shown(a) + " to "@ + "number"@
                + " for "@ + "numeric"@ + " comparison"@,
        ),
        op.numeric() && a is Number && !(b is Number) ==> eval::compared(a, op, b) == Err::<
            bool,
            Seq<char>,
        >(
            "Cannot coerce "@ + "predicate"@ + " value "@ + json::shown(b) + " to "@ + "number"@
                + " for "@ + "numeric"@ + " comparison"@,
        ),
        (op == Op::Contains || op == Op::Regex) && !(a is Text) ==> eval::compared(a, op, b)
            == Err::<bool, Seq<char>>(
            "Cannot coerce "@ + "field"@ + " value "@ + json::shown(a) + " to "@ + "string"@
                + " for "@ + op.name() + " comparison"@,
        ),
        (op == Op::Contains || op == Op::Regex) && a is Text && !(b is Text) ==> eval::compared(
            a,
            op,
            b,
        ) == Err::<bool, Seq<char>>(
            "Cannot coerce "@ + "predicate"@ + " value "@ + json::shown(b) + " to "@ + "string"@
                + " for "@ + op.name() + " comparison"@,
        ),
{
    law_incomparable(a, op, b);
}

/// Without predicates all items count, whatever the selection; a count says in words what it is held
/// against, and an item that cannot be evaluated what it lacks.
pub proof fn law_words_of_items(rows: Seq<Row>, spec: PropertySpec, m: int, n: int, row: Row, t: Test)
    ensures
        spec.predicates@.len() == 0 ==> ({
            let f = generic_eval::items_finding(rows, spec);
            &&& f.verdict == Verdict::Satisfied
            &&& f.selected == rows.len() && f.evaluated == rows.len() && f.matched == rows.len()
            &&& f.detail == "Empty predicates over "@ + text::decimal(rows.len())
                + " selected: satisfied"@
        }),
        spec.quantifier is Count ==> ({
            let (verdict, words) = generic_eval::quantified(spec.quantifier, m, n);
            let front = "COUNT "@ + text::decimal(m as nat) + " "@ + spec.quantifier->op.name()
                + " "@ + text::decimal(spec.quantifier->threshold as nat);
            &&& verdict == Verdict::Satisfied ==> words == front + " (empty predicates)"@
            &&& verdict == Verdict::Violated ==> words == front + " violated"@
        }),
        !(spec.quantifier is Count) ==> generic_eval::quantified(spec.quantifier, m, n)
            == eval::quantified(spec.quantifier, m, n),
        row(t.field) is None ==> generic_eval::stuck_text(row, t) == "Unknown field '"@ + t.field
            + "' in predicate; selector should have filtered unrelated items"@,
        row(t.field) is Some && eval::compared(row(t.field)->0, t.op, t.value) is Err
            ==> generic_eval::stuck_text(row, t) == "Type mismatch on field '"@ + t.field + "': "@
            + eval::compared(row(t.field)->0, t.op, t.value)->Err_0,
{
    assert(property::tests(spec.predicates@).len() == spec.predicates@.len());
}

/// A plain property is violated exactly where every predicate can be evaluated up to where it first
/// fails, and some predicate is false of an event.
pub proof fn law_violations(events: Seq<WalEvent>, spec: PropertySpec)
    requires
        is_plain(spec),
        clear(eval::event_rows(events), property::tests(spec.predicates@)),
    ensures
        eval::finding(events, spec).verdict == Verdict::Violated <==> exists|i: int|
            0 <= i < events.len() && !meets(
                eval::event_row(#[trigger] events[i]),
                property::tests(spec.predicates@),
            ),
{
    let preds = property::tests(spec.predicates@);
    let rows = eval::event_rows(events);
    law_plain_means_all(events, spec);
    law_errors_come_first(events, spec);
    assert forall|i: int| 0 <= i < events.len() implies #[trigger] meets(
        eval::event_row(events[i]),
        preds,
    ) == eval::passes(eval::event_row(events[i]), preds) by {
        lemma_meets(eval::event_row(events[i]), preds);
    }
    assert forall|i: int, j: int|
        0 <= i < events.len() && 0 <= j < preds.len() implies !(#[trigger] cannot_tell(
        events[i],
        preds[j],
    )) by {
        assert(rows[i] == eval::event_row(events[i]));
        let v = rows[i](preds[j].field);
        assert(v is Some && eval::compared(v->0, preds[j].op, preds[j].value) is Ok);
    }
}

} // verus!
