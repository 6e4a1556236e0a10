//! Properties: predicates on the fields of an event, which records they are about, and how many
//! of those must satisfy them.
use vstd::prelude::*;
use vstd::string::*;

use crate::json;
use crate::json::Json;
use crate::json::Num;
use crate::json::Value;
use crate::text;
use crate::wal::WalEvent;

verus! {

broadcast use vstd::string::group_string_axioms;

/// How a predicate compares a field with its value.
#[derive(Debug, Clone, Copy, PartialEq, Eq, Structural)]
pub enum Op {
    Eq,
    Neq,
    Gt,
    Lt,
    Gte,
    Lte,
    /// The field holds the value as a part of its text.
    Contains,
    /// As `Contains`: the pattern is taken as a plain text.
    Regex,
}

impl Op {
    /// The name of the operator.
    pub open spec fn name(self) -> Seq<char> {
        match self {
            Op::Eq => "Eq"@,
            Op::Neq => "Neq"@,
            Op::Gt => "Gt"@,
            Op::Lt => "Lt"@,
            Op::Gte => "Gte"@,
            Op::Lte => "Lte"@,
            Op::Contains => "Contains"@,
            Op::Regex => "Regex"@,
        }
    }

    /// The operator compares numbers.
    pub open spec fn numeric(self) -> bool {
        self == Op::Gt || self == Op::Lt || self == Op::Gte || self == Op::Lte
    }

    /// The operator with a name.
    pub fn parse(s: &str) -> (r: Option<Op>)
        ensures
            match r {
                Some(op) => s@ == op.name(),
                None => forall|op: Op| s@ != #[trigger] op.name(),
            },
    {
        if text::same(s, "Eq") {
            Some(Op::Eq)
        } else if text::same(s, "Neq") {
            Some(Op::Neq)
        } else if text::same(s, "Gt") {
            Some(Op::Gt)
        } else if text::same(s, "Lt") {
            Some(Op::Lt)
        } else if text::same(s, "Gte") {
            Some(Op::Gte)
        } else if text::same(s, "Lte") {
            Some(Op::Lte)
        } else if text::same(s, "Contains") {
            Some(Op::Contains)
        } else if text::same(s, "Regex") {
            Some(Op::Regex)
        } else {
            None
        }
    }

    /// The name of the operator.
    pub fn as_str(&self) -> (r: &'static str)
        ensures
            r@ == self.name(),
    {
        match self {
            Op::Eq => "Eq",
            Op::Neq => "Neq",
            Op::Gt => "Gt",
            Op::Lt => "Lt",
            Op::Gte => "Gte",
            Op::Lte => "Lte",
            Op::Contains => "Contains",
            Op::Regex => "Regex",
        }
    }
}

/// No two operators share a name, so that parsing a name gives back the operator it came from.
pub proof fn law_op_names_differ(a: Op, b: Op)
    ensures
        a.name() == b.name() ==> a == b,
{
    reveal_strlit("Eq");
    reveal_strlit("Neq");
    reveal_strlit("Gt");
    reveal_strlit("Lt");
    reveal_strlit("Gte");
    reveal_strlit("Lte");
    reveal_strlit("Contains");
    reveal_strlit("Regex");
    if a.name() == b.name() {
        assert(a.name().len() == b.name().len());
        assert(a.name()[0] == b.name()[0]);
    }
}

/// A test of one field.
#[derive(Debug)]
pub struct Predicate {
    /// Which field: `event_type`, `job_id`, `seq`, `watermark`, or `output.` and a path.
    pub field: String,
    pub op: Op,
    pub value: Value,
}

/// The model of a [`Predicate`].
pub ghost struct Test {
    pub field: Seq<char>,
    pub op: Op,
    pub value: Json,
}

impl Predicate {
    pub open spec fn view(&self) -> Test {
        Test { field: self.field@, op: self.op, value: self.value@ }
    }
}

/// The models of predicates.
pub open spec fn tests(p: Seq<Predicate>) -> Seq<Test> {
    p.map_values(|x: Predicate| x.view())
}

/// How many of the selected records must satisfy the predicates.
#[derive(Debug, Clone, Copy, PartialEq, Eq, Structural)]
pub enum Quantifier {
    All,
    Exists,
    NoneOf,
    Count { op: Op, threshold: u64 },
}

impl Default for Quantifier {
    fn default() -> (r: Self)
        ensures
            r == Quantifier::All,
    {
        Quantifier::All
    }
}

/// A property: predicates that are to hold together, of the records that satisfy `select`.
///
/// Without predicates the property holds of everything.
#[derive(Debug)]
pub struct PropertySpec {
    pub name: String,
    pub predicates: Vec<Predicate>,
    pub select: Vec<Predicate>,
    pub quantifier: Quantifier,
    pub version: Option<u64>,
}

/// A property as it was read, before it is checked.
#[derive(Debug)]
pub struct SpecWrapper {
    pub name: String,
    pub predicates: Vec<Predicate>,
    pub select: Vec<Predicate>,
    pub quantifier: Quantifier,
    pub version: Option<u64>,
}

/// Why a property was refused.
#[derive(Debug)]
pub enum ParseSpecError {
    /// It is not written as a property is.
    InvalidFormat(String),
    /// It names a field that no event has.
    InvalidFieldPath { field: String, message: String },
    /// Its operator does not go with its value.
    OpTypeMismatch { field: String, message: String },
}

impl ParseSpecError {
    /// The text of the error.
    pub open spec fn text(self) -> Seq<char> {
        match self {
            ParseSpecError::InvalidFormat(m) => "Parse error: "@ + m@,
            ParseSpecError::InvalidFieldPath { field, message } => "Invalid field path '"@ + field@
                + "': "@ + message@,
            ParseSpecError::OpTypeMismatch { field, message } => "Op/type mismatch on field '"@
                + field@ + "': "@ + message@,
        }
    }

    /// The text of the error.
    pub fn message(&self) -> (r: String)
        ensures
            r@ == self.text(),
    {
        match self {
            ParseSpecError::InvalidFormat(m) => {
                let mut r = "Parse error: ".to_owned();
                r.append(m.as_str());
                r
            },
            ParseSpecError::InvalidFieldPath { field, message } => super::quoted_message(
                "Invalid field path '",
                field,
                message,
            ),
            ParseSpecError::OpTypeMismatch { field, message } => super::quoted_message(
                "Op/type mismatch on field '",
                field,
                message,
            ),
        }
    }
}

/// A field path that an event can have.
pub open spec fn known_path(field: Seq<char>) -> bool {
    ||| field == "event_type"@
    ||| field == "job_id"@
    ||| field == "seq"@
    ||| field == "watermark"@
    ||| "output."@.is_prefix_of(field) && field.len() > "output."@.len()
}

/// The operator goes with the value.
pub open spec fn op_fits(t: Test) -> bool {
    t.op.numeric() ==> t.value is Number
}

/// The message for an unknown field path.
pub open spec fn path_message(field: Seq<char>) -> Seq<char> {
    "Field path '"@ + field
        + "' is not a recognized path. Supported: event_type, job_id, seq, output.<key>, watermark"@
}

/// The message for an operator that does not go with its value.
pub open spec fn op_message(t: Test) -> Seq<char> {
    "Operator "@ + t.op.name() + " requires a numeric value, got "@ + json::compact(t.value)
}

/// `e` is the complaint about the first of some predicates that names an unknown path or has an
/// operator that does not go with its value.
pub open spec fn is_complaint(p: Seq<Test>, e: ParseSpecError) -> bool {
    exists|i: int|
        #![trigger p[i]]
        0 <= i < p.len() && (forall|j: int|
            0 <= j < i ==> known_path((#[trigger] p[j]).field) && op_fits(p[j])) && (
        match e {
            ParseSpecError::InvalidFieldPath { field, message } => !known_path(p[i].field)
                && field@ == p[i].field && message@ == path_message(p[i].field),
            ParseSpecError::OpTypeMismatch { field, message } => known_path(p[i].field) && !op_fits(
                p[i],
            ) && field@ == p[i].field && message@ == op_message(p[i]),
            ParseSpecError::InvalidFormat(_) => false,
        })
}

/// Checks that a field path is one that an event can have.
pub fn validate_field_path(field: &str) -> (r: Result<(), ParseSpecError>)
    ensures
        r is Ok <==> known_path(field@),
        r matches Err(e) ==> (e matches ParseSpecError::InvalidFieldPath { field: f, message }
            && f@ == field@ && message@ == path_message(field@)),
{
    if text::same(field, "event_type") || text::same(field, "job_id") || text::same(field, "seq")
        || text::same(field, "watermark") {
        return Ok(());
    }
    if let Some(key) = text::strip_prefix(field, "output.") {
        if !key.as_str().is_empty() {
            return Ok(());
        }
    }
    let mut message = "Field path '".to_owned();
    message.append(field);
    message.append(
        "' is not a recognized path. Supported: event_type, job_id, seq, output.<key>, watermark",
    );
    Err(ParseSpecError::InvalidFieldPath { field: field.to_owned(), message })
}

/// Checks that an operator goes with a value.
fn validate_op_type(p: &Predicate) -> (r: Result<(), ParseSpecError>)
    ensures
        r is Ok <==> op_fits(p@),
        r matches Err(e) ==> (e matches ParseSpecError::OpTypeMismatch { field: f, message }
            && f@ == p.field@ && message@ == op_message(p@)),
{
    let numeric = matches!(p.op, Op::Gt | Op::Lt | Op::Gte | Op::Lte);
    if numeric && !p.value.is_number() {
        let mut message = "Operator ".to_owned();
        message.append(p.op.as_str());
        message.append(" requires a numeric value, got ");
        message.append(p.value.to_text().as_str());
        return Err(ParseSpecError::OpTypeMismatch { field: p.field.clone(), message });
    }
    Ok(())
}

/// Checks a property that was read.
///
/// `decoded` is what reading its text gave: the property, or the message of the reader.
pub fn parse_spec(decoded: Result<SpecWrapper, String>) -> (r: Result<PropertySpec, ParseSpecError>)
    ensures
        match decoded {
            Err(m) => r matches Err(ParseSpecError::InvalidFormat(t)) && t@ == "JSON parse error: "@
                + m@,
            Ok(w) => match r {
                Ok(s) => {
                    &&& forall|i: int|
                        0 <= i < w.predicates@.len() ==> known_path(
                            (#[trigger] tests(w.predicates@)[i]).field,
                        ) && op_fits(tests(w.predicates@)[i])
                    &&& s == (PropertySpec {
                        name: w.name,
                        predicates: w.predicates,
                        select: w.select,
                        quantifier: w.quantifier,
                        version: w.version,
                    })
                },
                Err(e) => is_complaint(tests(w.predicates@), e),
            },
        },
{
    let w = match decoded {
        Ok(w) => w,
        Err(m) => {
            let mut t = "JSON parse error: ".to_owned();
            t.append(m.as_str());
            return Err(ParseSpecError::InvalidFormat(t));
        },
    };
    for i in 0..w.predicates.len()
        invariant
            forall|j: int|
                0 <= j < i ==> known_path((#[trigger] tests(w.predicates@)[j]).field) && op_fits(
                    tests(w.predicates@)[j],
                ),
            decoded == Result::<SpecWrapper, String>::Ok(w),
    {
        assert(tests(w.predicates@)[i as int] == w.predicates@[i as int]@);
        match validate_field_path(w.predicates[i].field.as_str()) {
            Ok(()) => {},
            Err(e) => {
                return Err(e);
            },
        }
        match validate_op_type(&w.predicates[i]) {
            Ok(()) => {},
            Err(e) => {
                return Err(e);
            },
        }
    }
    Ok(
        PropertySpec {
            name: w.name,
            predicates: w.predicates,
            select: w.select,
            quantifier: w.quantifier,
            version: w.version,
        },
    )
}

/// What a path of keys leads to in a value.
pub open spec fn path_value(v: Json, parts: Seq<Seq<char>>) -> Option<Json>
    decreases parts.len(),
{
    if parts.len() == 0 {
        Some(v)
    } else {
        match json::member(v, parts[0]) {
            Some(x) => path_value(x, parts.skip(1)),
            None => None,
        }
    }
}

/// The value of a field of an event.
pub open spec fn field_of(event: WalEvent, field: Seq<char>) -> Option<Json> {
    if field == "event_type"@ {
        Some(Json::Text(event.event_type.name()))
    } else if field == "job_id"@ {
        Some(Json::Text(event.job_id@))
    } else if field == "seq"@ {
        Some(Json::Number(Num::PosInt(event.seq)))
    } else if field == "watermark"@ {
        None
    } else if "output."@.is_prefix_of(field) {
        match event.output {
            Some(o) => path_value(
                o@,
                text::pieces(field.skip("output."@.len() as int), '.'),
            ),
            None => None,
        }
    } else {
        None
    }
}

/// What a path of keys leads to in a value.
fn follow(v: &Value, parts: &Vec<String>) -> (r: Option<Value>)
    ensures
        json::option_view(r) == path_value(v@, text::texts(parts@)),
{
    let ghost all = text::texts(parts@);
    let mut current: &Value = v;
    assert(all.skip(0) =~= all);
    for i in 0..parts.len()
        invariant
            all == text::texts(parts@),
            path_value(v@, all) == path_value(current@, all.skip(i as int)),
    {
        assert(all.skip(i as int)[0] == parts@[i as int]@);
        assert(all.skip(i as int).skip(1) =~= all.skip(i + 1));
        match current.get(parts[i].as_str()) {
            Some(next) => {
                current = next;
            },
            None => {
                return None;
            },
        }
    }
    Some(current.clone())
}

/// The value of a field of an event, where the event has it.
pub fn extract_field(event: &WalEvent, field: &str) -> (r: Option<Value>)
    ensures
        json::option_view(r) == field_of(*event, field@),
{
    if text::same(field, "event_type") {
        Some(Value::from_text(event.event_type.as_str()))
    } else if text::same(field, "job_id") {
        Some(Value::from_text(event.job_id.as_str()))
    } else if text::same(field, "seq") {
        Some(Value::from_natural(event.seq))
    } else if text::same(field, "watermark") {
        None
    } else {
        match text::strip_prefix(field, "output.") {
            Some(path) => match &event.output {
                Some(o) => {
                    let parts = text::split(path.as_str(), '.');
                    follow(o, &parts)
                },
                None => None,
            },
            None => None,
        }
    }
}

} // verus!
