//! Whether some items have a property, whatever they are: the caller says what their fields hold.
use vstd::prelude::*;
use vstd::string::*;

use super::eval;
use super::eval::compare_values;
use super::eval::Finding;
use super::eval::Row;
use super::eval::Verdict;
use super::property;
use super::property::Op;
use super::property::Predicate;
use super::property::PropertySpec;
use super::property::Quantifier;
use super::property::Test;
use crate::json;
use crate::json::Value;
use crate::text;

verus! {

broadcast use vstd::string::group_string_axioms;

/// The result of an evaluation.
#[derive(Debug)]
pub struct GenericVerdict {
    pub name: String,
    pub verdict: Verdict,
    /// What was found, in words.
    pub detail: String,
    /// Number of items that the property is about.
    pub selected_count: usize,
    pub evaluated_count: usize,
    /// Number of selected items that satisfy all predicates.
    pub matched_count: usize,
}

impl GenericVerdict {
    pub open spec fn view(&self) -> Finding {
        Finding {
            name: self.name@,
            verdict: self.verdict,
            detail: self.detail@,
            selected: self.selected_count as int,
            evaluated: self.evaluated_count as int,
            matched: self.matched_count as int,
        }
    }
}

/// `row` is the record that a resolver makes of an item: whatever it answers for a field is what
/// the record holds there.
pub open spec fn is_row_of<T, F: Fn(&T, &str) -> Option<Value>>(
    resolve: F,
    item: T,
    row: Row,
) -> bool {
    forall|field: &str, v: Option<Value>| #[trigger]
        call_ensures(resolve, (&item, field), v) ==> json::option_view(v) == row(field@)
}

/// `rows` are the records that a resolver makes of some items.
pub open spec fn resolves<T, F: Fn(&T, &str) -> Option<Value>>(
    resolve: F,
    items: Seq<T>,
    rows: Seq<Row>,
) -> bool {
    &&& rows.len() == items.len()
    &&& forall|i: int| 0 <= i < items.len() ==> is_row_of(resolve, items[i], #[trigger] rows[i])
}

/// A number of items compares with a threshold as the operator asks, both taken as doubles.
pub open spec fn count_passes(m: int, op: Op, threshold: u64) -> bool {
    eval::ordered(json::double_rank(m as nat), op, json::double_rank(threshold as nat))
}

/// What a quantifier says of `m` matching items among `n`.
pub open spec fn quantified(q: Quantifier, m: int, n: int) -> (Verdict, Seq<char>) {
    match q {
        Quantifier::Count { op, threshold } => if count_passes(m, op, threshold) {
            (
                Verdict::Satisfied,
                eval::count_text("COUNT "@, m, op, threshold, " (empty predicates)"@),
            )
        } else {
            (Verdict::Violated, eval::count_text("COUNT "@, m, op, threshold, " violated"@))
        },
        _ => eval::quantified(q, m, n),
    }
}

/// Why the evaluation of a record got stuck at a predicate.
pub open spec fn stuck_text(row: Row, t: Test) -> Seq<char> {
    match row(t.field) {
        None => "Unknown field '"@ + t.field
            + "' in predicate; selector should have filtered unrelated items"@,
        Some(v) => "Type mismatch on field '"@ + t.field + "': "@ + (match eval::compared(
            v,
            t.op,
            t.value,
        ) {
            Err(m) => m,
            Ok(_) => Seq::empty(),
        }),
    }
}

/// What is found of a property in some items.
pub open spec fn items_finding(rows: Seq<Row>, spec: PropertySpec) -> Finding {
    let preds = property::tests(spec.predicates@);
    let chosen = eval::selected_rows(rows, property::tests(spec.select@));
    let n = chosen.len() as int;
    let k = eval::first_stuck(chosen, preds);
    let all = rows.len() as int;
    if preds.len() == 0 {
        Finding {
            name: spec.name@,
            verdict: Verdict::Satisfied,
            detail: "Empty predicates over "@ + text::decimal(all as nat) + " selected: satisfied"@,
            selected: all,
            evaluated: all,
            matched: all,
        }
    } else if k < n {
        Finding {
            name: spec.name@,
            verdict: Verdict::Error,
            detail: stuck_text(chosen[k], preds[eval::stuck_at(chosen[k], preds)->0]),
            selected: n,
            evaluated: n,
            matched: eval::matching(chosen.take(k), preds),
        }
    } else {
        let m = eval::matching(chosen, preds);
        let (verdict, detail) = quantified(spec.quantifier, m, n);
        Finding { name: spec.name@, verdict, detail, selected: n, evaluated: n, matched: m }
    }
}

/// What a quantifier says of `m` matching items among `n`.
fn quantify(q: Quantifier, m: usize, n: usize) -> (r: (Verdict, String))
    ensures
        (r.0, r.1@) == quantified(q, m as int, n as int),
{
    match q {
        Quantifier::All => if m == n {
            (Verdict::Satisfied, eval::share_text("ALL: ", m, n))
        } else {
            (Verdict::Violated, eval::share_text("ALL violated: ", m, n))
        },
        Quantifier::Exists => if m >= 1 {
            (Verdict::Satisfied, eval::share_text("EXISTS: ", m, n))
        } else {
            (Verdict::Violated, eval::share_text("EXISTS violated: ", 0, n))
        },
        Quantifier::NoneOf => if m == 0 {
            (Verdict::Satisfied, eval::share_text("NONE: ", 0, n))
        } else {
            (Verdict::Violated, eval::share_text("NONE violated: ", m, n))
        },
        Quantifier::Count { op, threshold } => {
            let a = json::rank_of_natural(m as u64);
            let b = json::rank_of_natural(threshold);
            if eval::in_order(a, op, b) {
                (
                    Verdict::Satisfied,
                    eval::count_words("COUNT ", m, op, threshold, " (empty predicates)"),
                )
            } else {
                (Verdict::Violated, eval::count_words("COUNT ", m, op, threshold, " violated"))
            }
        },
    }
}

/// Whether an item satisfies all of some predicates.
fn item_passes<T, F: Fn(&T, &str) -> Option<Value>>(
    item: &T,
    select: &Vec<Predicate>,
    resolve_field: &F,
) -> (r: bool)
    requires
        forall|x: &T, field: &str| call_requires(*resolve_field, (x, field)),
    ensures
        forall|row: Row| #[trigger]
            is_row_of(*resolve_field, *item, row) ==> r == eval::passes(
                row,
                property::tests(select@),
            ),
{
    let ghost tests = property::tests(select@);
    for j in 0..select.len()
        invariant
            tests == property::tests(select@),
            forall|x: &T, field: &str| call_requires(*resolve_field, (x, field)),
            forall|row: Row, k: int|
                #![trigger is_row_of(*resolve_field, *item, row), tests[k]]
                is_row_of(*resolve_field, *item, row) && 0 <= k < j ==> eval::holds(row, tests[k])
                    == Some(true),
    {
        assert(tests[j as int] == select@[j as int]@);
        let answer = resolve_field(item, select[j].field.as_str());
        let held = match &answer {
            Some(v) => match compare_values(v, select[j].op, &select[j].value) {
                Ok(b) => b,
                Err(_) => false,
            },
            None => false,
        };
        assert forall|row: Row| #[trigger] is_row_of(*resolve_field, *item, row) implies held == (
        eval::holds(row, tests[j as int]) == Some(true)) by {
            assert(json::option_view(answer) == row(tests[j as int].field));
        }
        if !held {
            assert forall|row: Row| #[trigger]
                is_row_of(*resolve_field, *item, row) implies !eval::passes(row, tests) by {
                assert(eval::holds(row, tests[j as int]) != Some(true));
            }
            return false;
        }
    }
    true
}

/// The outcome of all predicates on one item.
enum ItemOutcome {
    /// Whether the item satisfies them.
    Told(bool),
    /// Why the evaluation got stuck.
    Stuck(String),
}

/// What came of all predicates on one item.
fn evaluate_item<T, F: Fn(&T, &str) -> Option<Value>>(
    item: &T,
    preds: &Vec<Predicate>,
    resolve_field: &F,
) -> (r: ItemOutcome)
    requires
        forall|x: &T, field: &str| call_requires(*resolve_field, (x, field)),
    ensures
        forall|row: Row| #[trigger]
            is_row_of(*resolve_field, *item, row) ==> match r {
                ItemOutcome::Told(b) => eval::stuck_at(row, property::tests(preds@)) is None && b
                    == eval::passes(row, property::tests(preds@)),
                ItemOutcome::Stuck(m) => {
                    let at = eval::stuck_at(row, property::tests(preds@));
                    at is Some && m@ == stuck_text(row, property::tests(preds@)[at->0])
                },
            },
{
    let ghost tests = property::tests(preds@);
    for j in 0..preds.len()
        invariant
            tests == property::tests(preds@),
            forall|x: &T, field: &str| call_requires(*resolve_field, (x, field)),
            forall|row: Row, k: int|
                #![trigger is_row_of(*resolve_field, *item, row), tests[k]]
                is_row_of(*resolve_field, *item, row) && 0 <= k < j ==> eval::holds(row, tests[k])
                    == Some(true),
    {
        let ghost t = tests[j as int];
        assert(t == preds@[j as int]@);
        let answer = resolve_field(item, preds[j].field.as_str());
        assert forall|row: Row| #[trigger] is_row_of(*resolve_field, *item, row) implies row(
            t.field,
        ) == json::option_view(answer) && (eval::holds(row, t) != Some(true) ==> eval::first_unmet(
            row,
            tests,
        ) == j) by {
            eval::lemma_first_unmet(row, tests);
            assert(json::option_view(answer) == row(t.field));
            if eval::holds(row, t) != Some(true) {
                assert(eval::holds(row, tests[j as int]) != Some(true));
            }
        }
        let v = match answer {
            Some(v) => v,
            None => {
                let mut m = "Unknown field '".to_owned();
                m.append(preds[j].field.as_str());
                m.append("' in predicate; selector should have filtered unrelated items");
                return ItemOutcome::Stuck(m);
            },
        };
        match compare_values(&v, preds[j].op, &preds[j].value) {
            Ok(true) => {},
            Ok(false) => {
                assert forall|row: Row| #[trigger]
                    is_row_of(*resolve_field, *item, row) implies !eval::passes(row, tests)
                    && eval::stuck_at(row, tests) is None by {
                    assert(eval::holds(row, tests[j as int]) == Some(false));
                }
                return ItemOutcome::Told(false);
            },
            Err(e) => {
                let m = super::quoted_message("Type mismatch on field '", &preds[j].field, &e);
                return ItemOutcome::Stuck(m);
            },
        }
    }
    assert forall|row: Row| #[trigger] is_row_of(*resolve_field, *item, row) implies eval::passes(
        row,
        tests,
    ) && eval::stuck_at(row, tests) is None by {
        eval::lemma_first_unmet(row, tests);
    }
    ItemOutcome::Told(true)
}

/// The positions of the items that satisfy all of some predicates, in their order.
fn select_items<T, F: Fn(&T, &str) -> Option<Value>>(
    items: &[T],
    select: &Vec<Predicate>,
    resolve_field: &F,
) -> (r: Vec<usize>)
    requires
        forall|x: &T, field: &str| call_requires(*resolve_field, (x, field)),
    ensures
        r@.len() <= items@.len(),
        forall|k: int| 0 <= k < r@.len() ==> (#[trigger] r@[k]) < items@.len(),
        forall|rows: Seq<Row>| #[trigger]
            resolves(*resolve_field, items@, rows) ==> eval::selected_rows(
                rows,
                property::tests(select@),
            ) == r@.map_values(|i: usize| rows[i as int]),
{
    let ghost tests = property::tests(select@);
    let mut r: Vec<usize> = Vec::new();
    assert forall|rows: Seq<Row>| #[trigger]
        resolves(*resolve_field, items@, rows) implies eval::selected_rows(rows.take(0), tests)
        == r@.map_values(|i: usize| rows[i as int]) by {
        assert(eval::selected_rows(rows.take(0), tests) =~= r@.map_values(
            |i: usize| rows[i as int],
        ));
    }
    for i in 0..items.len()
        invariant
            tests == property::tests(select@),
            forall|x: &T, field: &str| call_requires(*resolve_field, (x, field)),
            r@.len() <= i,
            forall|k: int| 0 <= k < r@.len() ==> (#[trigger] r@[k]) < items@.len(),
            forall|rows: Seq<Row>| #[trigger]
                resolves(*resolve_field, items@, rows) ==> eval::selected_rows(
                    rows.take(i as int),
                    tests,
                ) == r@.map_values(|i: usize| rows[i as int]),
    {
        let ghost before = r@;
        let pass = item_passes(&items[i], select, resolve_field);
        if pass {
            r.push(i);
        }
        assert forall|rows: Seq<Row>| #[trigger]
            resolves(*resolve_field, items@, rows) implies eval::selected_rows(
            rows.take(i + 1),
            tests,
        ) == r@.map_values(|i: usize| rows[i as int]) by {
            assert(rows.take(i + 1).drop_last() =~= rows.take(i as int));
            assert(rows.take(i + 1).last() == rows[i as int]);
            assert(is_row_of(*resolve_field, items@[i as int], rows[i as int]));
            if pass {
                assert(r@.map_values(|i: usize| rows[i as int]) =~= before.map_values(
                    |i: usize| rows[i as int],
                ).push(rows[i as int]));
            }
        }
    }
    assert forall|rows: Seq<Row>| #[trigger]
        resolves(*resolve_field, items@, rows) implies eval::selected_rows(rows, tests)
        == r@.map_values(|i: usize| rows[i as int]) by {
        assert(rows.take(rows.len() as int) =~= rows);
    }
    r
}

/// Evaluates a property on some items, whose fields `resolve_field` tells.
///
/// Where the resolver's answers are those of some records, the result is what those records give.
pub fn evaluate_items<T, F: Fn(&T, &str) -> Option<Value>>(
    items: &[T],
    spec: &PropertySpec,
    resolve_field: &F,
) -> (r: GenericVerdict)
    requires
        forall|x: &T, field: &str| call_requires(*resolve_field, (x, field)),
    ensures
        spec.predicates@.len() == 0 ==> r.verdict == Verdict::Satisfied && r.selected_count
            == items@.len(),
        r.matched_count <= r.selected_count <= items@.len(),
        r.evaluated_count == r.selected_count,
        r.name@ == spec.name@,
        forall|rows: Seq<Row>| #[trigger]
            resolves(*resolve_field, items@, rows) ==> r@ == items_finding(rows, *spec),
{
    let ghost preds = property::tests(spec.predicates@);
    let ghost select = property::tests(spec.select@);
    if spec.predicates.len() == 0 {
        let mut detail = "Empty predicates over ".to_owned();
        detail.append(text::decimal_text(items.len() as u64).as_str());
        detail.append(" selected: satisfied");
        return GenericVerdict {
            name: spec.name.clone(),
            verdict: Verdict::Satisfied,
            detail,
            selected_count: items.len(),
            evaluated_count: items.len(),
            matched_count: items.len(),
        };
    }
    let selected = select_items(items, &spec.select, resolve_field);
    let n = selected.len();
    let mut matched: usize = 0;
    assert forall|rows: Seq<Row>| #[trigger] resolves(*resolve_field, items@, rows) implies {
        let chosen = eval::selected_rows(rows, select);
        &&& matched == eval::matching(chosen.take(0), preds)
        &&& eval::first_stuck(chosen, preds) == eval::first_stuck(chosen.skip(0), preds)
    } by {
        let chosen = eval::selected_rows(rows, select);
        assert(chosen.skip(0) =~= chosen);
    }
    for k in 0..n
        invariant
            n == selected@.len(),
            n <= items@.len(),
            preds == property::tests(spec.predicates@),
            select == property::tests(spec.select@),
            preds.len() > 0,
            forall|x: &T, field: &str| call_requires(*resolve_field, (x, field)),
            forall|k: int| 0 <= k < selected@.len() ==> (#[trigger] selected@[k]) < items@.len(),
            matched <= k,
            forall|rows: Seq<Row>| #[trigger]
                resolves(*resolve_field, items@, rows) ==> eval::selected_rows(rows, select)
                    == selected@.map_values(|i: usize| rows[i as int]),
            forall|rows: Seq<Row>| #[trigger]
                resolves(*resolve_field, items@, rows) ==> {
                    let chosen = eval::selected_rows(rows, select);
                    &&& matched == eval::matching(chosen.take(k as int), preds)
                    &&& eval::first_stuck(chosen, preds) == k + eval::first_stuck(
                        chosen.skip(k as int),
                        preds,
                    )
                },
    {
        let outcome = evaluate_item(&items[selected[k]], &spec.predicates, resolve_field);
        assert forall|rows: Seq<Row>| #[trigger] resolves(*resolve_field, items@, rows) implies {
            let chosen = eval::selected_rows(rows, select);
            &&& chosen.len() == n
            &&& is_row_of(*resolve_field, items@[selected@[k as int] as int], chosen[k as int])
            &&& chosen.take(k + 1).drop_last() == chosen.take(k as int)
            &&& chosen.skip(k as int)[0] == chosen[k as int]
            &&& chosen.skip(k as int).skip(1) == chosen.skip(k + 1)
        } by {
            let chosen = eval::selected_rows(rows, select);
            assert(chosen[k as int] == rows[selected@[k as int] as int]);
            assert(chosen.take(k + 1).drop_last() =~= chosen.take(k as int));
            assert(chosen.skip(k as int).skip(1) =~= chosen.skip(k + 1));
        }
        match outcome {
            ItemOutcome::Told(b) => {
                if b {
                    matched = matched + 1;
                }
            },
            ItemOutcome::Stuck(detail) => {
                return GenericVerdict {
                    name: spec.name.clone(),
                    verdict: Verdict::Error,
                    detail,
                    selected_count: n,
                    evaluated_count: n,
                    matched_count: matched,
                };
            },
        }
    }
    let (verdict, detail) = quantify(spec.quantifier, matched, n);
    assert forall|rows: Seq<Row>| #[trigger] resolves(*resolve_field, items@, rows) implies {
        let chosen = eval::selected_rows(rows, select);
        &&& chosen.take(n as int) == chosen
        &&& eval::first_stuck(chosen, preds) == n
        &&& chosen.len() == n
    } by {
        let chosen = eval::selected_rows(rows, select);
        assert(chosen.take(n as int) =~= chosen);
    }
    GenericVerdict {
        name: spec.name.clone(),
        verdict,
        detail,
        selected_count: n,
        evaluated_count: n,
        matched_count: matched,
    }
}

} // verus!
