//! What capabilities are given and what they give.
use vstd::prelude::*;
use vstd::string::*;

use crate::json;
use crate::json::Json;
use crate::json::Object;
use crate::json::Value;

verus! {

broadcast use vstd::string::group_string_axioms;

/// What a capability gives.
#[derive(Debug)]
pub struct Output {
    /// `ok` or `error`.
    pub status: String,
    pub output: String,
    pub data: Option<Value>,
    pub error: Option<String>,
}

impl Output {
    /// What the log says of an output.
    pub open spec fn json(self) -> Json {
        let base = json::inserted(
            json::inserted(
                json::inserted(Seq::empty(), "status"@, Json::Text(self.status@)),
                "output"@,
                Json::Text(self.output@),
            ),
            "data"@,
            match self.data {
                Some(v) => v@,
                None => Json::Null,
            },
        );
        Json::Object(
            match self.error {
                Some(e) => json::inserted(base, "error"@, Json::Text(e@)),
                None => base,
            },
        )
    }

    /// The capability did what it was asked.
    pub open spec fn succeeded(self) -> bool {
        self.status@ == "ok"@
    }

    /// A success.
    pub fn ok(output: String) -> (r: Output)
        ensures
            r.status@ == "ok"@,
            r.output@ == output@,
            r.data is None,
            r.error is None,
    {
        Output { status: "ok".to_owned(), output, data: None, error: None }
    }

    /// A failure.
    pub fn error(output: String, error: String) -> (r: Output)
        ensures
            r.status@ == "error"@,
            r.output@ == output@,
            r.data is None,
            r.error == Some(error),
    {
        Output { status: "error".to_owned(), output, data: None, error: Some(error) }
    }

    /// What the log says of an output.
    pub fn to_value(&self) -> (r: Value)
        ensures
            r@ == self.json(),
    {
        let data = match &self.data {
            Some(v) => v.clone(),
            None => Value::Null,
        };
        let base = Object::new().with("status".to_owned(), Value::from_text(self.status.as_str())).with(
            "output".to_owned(),
            Value::from_text(self.output.as_str()),
        ).with("data".to_owned(), data);
        let all = match &self.error {
            Some(e) => base.with("error".to_owned(), Value::from_text(e.as_str())),
            None => base,
        };
        Value::Object(all)
    }
}

/// What a capability is told besides its arguments.
#[derive(Debug)]
pub struct Context {
    /// Do nothing that leaves a trace.
    pub dry_run: bool,
    pub job_id: String,
    /// Where relative paths begin.
    pub working_dir: String,
}


/// As a value an output has its status, its text and its data, null where there are none, and its
/// error where there is one; it has nothing else.
pub proof fn law_output_members(o: Output, key: Seq<char>)
    ensures
        o.json() is Object,
        json::member(o.json(), "status"@) == Some(Json::Text(o.status@)),
        json::member(o.json(), "output"@) == Some(Json::Text(o.output@)),
        o.data is Some ==> json::member(o.json(), "data"@) == Some((o.data->0)@),
        o.data is None ==> json::member(o.json(), "data"@) == Some(Json::Null),
        o.error is Some ==> json::member(o.json(), "error"@) == Some(Json::Text((o.error->0)@)),
        o.error is None ==> json::member(o.json(), "error"@) is None,
        key != "status"@ && key != "output"@ && key != "data"@ && key != "error"@ ==> json::member(
            o.json(),
            key,
        ) is None,
{
    reveal_strlit("status");
    reveal_strlit("output");
    reveal_strlit("data");
    reveal_strlit("error");
    assert("status"@[0] == 's' && "output"@[0] == 'o');
    assert("data"@.len() == 4 && "error"@.len() == 5);
    let none = Seq::<(Seq<char>, Json)>::empty();
    let data = match o.data {
        Some(v) => v@,
        None => Json::Null,
    };
    let one = json::inserted(none, "status"@, Json::Text(o.status@));
    let two = json::inserted(one, "output"@, Json::Text(o.output@));
    let base = json::inserted(two, "data"@, data);
    json::law_members_are_found(none, key, Json::Null);
    json::law_members_are_found(none, "error"@, Json::Null);
    json::law_insertion(none, "status"@, Json::Text(o.status@), key);
    json::law_insertion(none, "status"@, Json::Text(o.status@), "error"@);
    json::law_insertion(one, "output"@, Json::Text(o.output@), "status"@);
    json::law_insertion(one, "output"@, Json::Text(o.output@), key);
    json::law_insertion(one, "output"@, Json::Text(o.output@), "error"@);
    json::law_insertion(two, "data"@, data, "status"@);
    json::law_insertion(two, "data"@, data, "output"@);
    json::law_insertion(two, "data"@, data, "error"@);
    json::law_insertion(two, "data"@, data, key);
    if o.error is Some {
        let e = Json::Text((o.error->0)@);
        json::law_insertion(base, "error"@, e, "status"@);
        json::law_insertion(base, "error"@, e, "output"@);
        json::law_insertion(base, "error"@, e, "data"@);
        json::law_insertion(base, "error"@, e, key);
    }
}

/// A success says `ok` and has no error; a failure says `error` and what it is; both keep the text
/// that they are made of.
pub proof fn law_outcomes(text: String, why: String, good: Output, bad: Output, v: Value)
    requires
        call_ensures(Output::ok, (text,), good),
        call_ensures(Output::error, (text, why), bad),
        call_ensures(Output::to_value, (&bad,), v),
    ensures
        good.succeeded(),
        good.status@ == "ok"@,
        good.output@ == text@,
        good.error is None,
        good.data is None,
        !bad.succeeded(),
        bad.status@ == "error"@,
        bad.output@ == text@,
        bad.error is Some && (bad.error->0)@ == why@,
        bad.data is None,
        v@ == bad.json(),
{
    reveal_strlit("ok");
    reveal_strlit("error");
    assert("ok"@.len() == 2 && "error"@.len() == 5);
}

} // verus!
