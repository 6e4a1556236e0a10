//! Arguments held against a simple schema: the type of a value and the keys it must have.
use vstd::prelude::*;
use vstd::string::*;

use crate::error::Error;
use crate::json;
use crate::json::Json;
use crate::json::Value;
use crate::text;

verus! {

broadcast use vstd::string::group_string_axioms;

/// Holds values against schemas.
#[derive(Debug)]
pub struct SchemaValidator {}

/// The name of a value's type.
pub open spec fn kind_name(v: Json) -> Seq<char> {
    match v {
        Json::Text(_) => "string"@,
        Json::Number(_) => "number"@,
        Json::Bool(_) => "boolean"@,
        Json::Array(_) => "array"@,
        Json::Object(_) => "object"@,
        Json::Null => "null"@,
    }
}

/// The type that a schema asks for.
pub open spec fn wanted_type(schema: Json) -> Option<Seq<char>> {
    match json::member(schema, "type"@) {
        Some(Json::Text(t)) => Some(t),
        _ => None,
    }
}

/// The keys that a schema asks for: the texts in its list of them.
pub open spec fn wanted_keys(schema: Json) -> Seq<Json> {
    match json::member(schema, "required"@) {
        Some(Json::Array(a)) => a,
        _ => Seq::empty(),
    }
}

/// Entry `i` of a schema's list of keys is a key that an object lacks.
pub open spec fn lacks(args: Json, keys: Seq<Json>, i: int) -> bool {
    args is Object && keys[i] is Text && json::lookup(args->Object_0, keys[i]->Text_0) is None
}

/// A value fits a schema: it is of the type that the schema asks for, if any, and where it is an
/// object it has all the keys that the schema asks for.
pub open spec fn fits(args: Json, schema: Json) -> bool {
    &&& wanted_type(schema) matches Some(t) ==> t == kind_name(args)
    &&& forall|i: int|
        0 <= i < wanted_keys(schema).len() ==> !#[trigger] lacks(args, wanted_keys(schema), i)
}

/// The name of a value's type.
fn type_of(v: &Value) -> (r: &'static str)
    ensures
        r@ == kind_name(v@),
{
    match v {
        Value::String(_) => "string",
        Value::Number(_) => "number",
        Value::Bool(_) => "boolean",
        Value::Array(_) => "array",
        Value::Object(_) => "object",
        Value::Null => "null",
    }
}

impl SchemaValidator {
    /// A validator.
    pub fn new() -> (r: Self)
        ensures
            r == (SchemaValidator {  }),
    {
        SchemaValidator {  }
    }

    /// Checks that a value fits a schema.
    ///
    /// A wrong type is reported before a missing key, and of the missing keys the first.
    pub fn validate(args: &Value, schema: &Value) -> (r: Result<(), Error>)
        ensures
            r is Ok <==> fits(args@, schema@),
            r matches Err(e) ==> (e matches Error::SchemaValidationFailed(m) && if wanted_type(
                schema@,
            ) is Some && wanted_type(schema@)->0 != kind_name(args@) {
                m@ == "Expected type '"@ + wanted_type(schema@)->0 + "', got '"@ + kind_name(args@)
                    + "'"@
            } else {
                exists|i: int|
                    #![trigger wanted_keys(schema@)[i]]
                    0 <= i < wanted_keys(schema@).len() && lacks(args@, wanted_keys(schema@), i)
                        && (forall|j: int|
                        0 <= j < i ==> !#[trigger] lacks(args@, wanted_keys(schema@), j)) && m@
                        == "Missing required field: '"@ + wanted_keys(schema@)[i]->Text_0 + "'"@
            }),
    {
        if let Some(t) = schema.get("type") {
            if let Some(expected) = t.as_str() {
                let actual = type_of(args);
                if !text::same(expected, actual) {
                    let mut m = "Expected type '".to_owned();
                    m.append(expected);
                    m.append("', got '");
                    m.append(actual);
                    m.append("'");
                    return Err(Error::SchemaValidationFailed(m));
                }
            }
        }
        if let Some(Value::Array(keys)) = schema.get("required") {
            if let Value::Object(o) = args {
                let ghost all = wanted_keys(schema@);
                for i in 0..keys.len()
                    invariant
                        all == wanted_keys(schema@),
                        all.len() == keys@.len(),
                        forall|j: int| 0 <= j < keys@.len() ==> all[j] == (#[trigger] keys@[j])@,
                        args@ == Json::Object(o@),
                        wanted_type(schema@) matches Some(t) ==> t == kind_name(args@),
                        forall|j: int| 0 <= j < i ==> !#[trigger] lacks(args@, all, j),
                {
                    assert(all[i as int] == keys@[i as int]@);
                    if let Some(k) = keys[i].as_str() {
                        if o.get(k).is_none() {
                            let mut m = "Missing required field: '".to_owned();
                            m.append(k);
                            m.append("'");
                            assert(lacks(args@, all, i as int));
                            return Err(Error::SchemaValidationFailed(m));
                        }
                    }
                }
            }
        }
        Ok(())
    }
}

impl Default for SchemaValidator {
    fn default() -> (r: Self)
        ensures
            r == (SchemaValidator {  }),
    {
        SchemaValidator::new()
    }
}


/// Arguments are refused exactly where the schema names a type that is not theirs, or where they
/// are an object without a key that it requires. A schema that says neither refuses nothing.
pub proof fn law_validation(args: Value, schema: Value, r: Result<(), Error>, t: Seq<char>, keys: Seq<Json>)
    requires
        call_ensures(SchemaValidator::validate, (&args, &schema), r),
    ensures
        json::member(schema@, "type"@) == Some(Json::Text(t)) && t != kind_name(args@) ==> r is Err
            && (r->Err_0).text() == "Schema validation failed: "@ + ("Expected type '"@ + t
            + "', got '"@ + kind_name(args@) + "'"@),
        (json::member(schema@, "type"@) == Some(Json::Text(t)) && t == kind_name(args@)
            || json::member(schema@, "type"@) is None) && json::member(schema@, "required"@)
            == Some(Json::Array(keys)) && args@ is Object ==> (r is Ok <==> forall|i: int|
            0 <= i < keys.len() && (#[trigger] keys[i]) is Text ==> json::member(
                args@,
                keys[i]->Text_0,
            ) is Some),
        (json::member(schema@, "type"@) == Some(Json::Text(t)) && t == kind_name(args@)
            || json::member(schema@, "type"@) is None) && (json::member(schema@, "required"@)
            is None || !(args@ is Object)) ==> r is Ok,
{
    let wanted = wanted_keys(schema@);
    if json::member(schema@, "required"@) == Some(Json::Array(keys)) && args@ is Object {
        assert(wanted == keys);
        if r is Ok {
            assert forall|i: int| 0 <= i < keys.len() && (#[trigger] keys[i]) is Text implies
                json::member(args@, keys[i]->Text_0) is Some by {
                assert(!lacks(args@, wanted, i));
            }
        }
        if forall|i: int|
            0 <= i < keys.len() && (#[trigger] keys[i]) is Text ==> json::member(
                args@,
                keys[i]->Text_0,
            ) is Some {
            assert forall|i: int| 0 <= i < wanted.len() implies !#[trigger] lacks(
                args@,
                wanted,
                i,
            ) by {
                assert(keys[i] is Text ==> json::member(args@, keys[i]->Text_0) is Some);
            }
        }
    }
}

/// The first of the required keys that is missing is the one that is named.
pub proof fn law_missing_key(args: Value, schema: Value, r: Result<(), Error>, keys: Seq<Json>)
    requires
        call_ensures(SchemaValidator::validate, (&args, &schema), r),
        r is Err,
        json::member(schema@, "type"@) is None,
        json::member(schema@, "required"@) == Some(Json::Array(keys)),
    ensures
        exists|i: int|
            {
                &&& 0 <= i < keys.len()
                &&& (#[trigger] keys[i]) is Text
                &&& json::member(args@, keys[i]->Text_0) is None
                &&& forall|j: int|
                    0 <= j < i && (#[trigger] keys[j]) is Text ==> json::member(
                        args@,
                        keys[j]->Text_0,
                    ) is Some
                &&& (r->Err_0).text() == "Schema validation failed: "@ + (
                "Missing required field: '"@ + keys[i]->Text_0 + "'"@)
            },
{
    let wanted = wanted_keys(schema@);
    let m = r->Err_0->SchemaValidationFailed_0;
    let i = choose|i: int|
        #![trigger wanted[i]]
        0 <= i < wanted.len() && lacks(args@, wanted, i) && (forall|j: int|
            0 <= j < i ==> !#[trigger] lacks(args@, wanted, j)) && m@
            == "Missing required field: '"@ + wanted[i]->Text_0 + "'"@;
    assert(keys[i] is Text);
    assert forall|j: int| 0 <= j < i && (#[trigger] keys[j]) is Text implies json::member(
        args@,
        keys[j]->Text_0,
    ) is Some by {
        assert(!lacks(args@, wanted, j));
    }
}

/// Each kind of value goes by its own name.
pub proof fn law_kinds(v: Json)
    ensures
        v is Text ==> kind_name(v) == "string"@,
        v is Number ==> kind_name(v) == "number"@,
        v is Bool ==> kind_name(v) == "boolean"@,
        v is Array ==> kind_name(v) == "array"@,
        v is Object ==> kind_name(v) == "object"@,
        v is Null ==> kind_name(v) == "null"@,
{
}

} // verus!
