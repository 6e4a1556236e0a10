//! Keeps a few environment variables as they were while something else changes them.
use vstd::prelude::*;
use vstd::string::*;

use crate::telemetry;

verus! {

broadcast use vstd::string::group_string_axioms;

/// The values of four environment variables at one moment. One that was not set has none.
#[derive(Debug)]
pub struct EnvGuard {
    pressure: Option<String>,
    ceiling: Option<String>,
    dal: Option<String>,
    semantic_policy: Option<String>,
}

/// What to do with a variable: give it a value, or remove it.
#[derive(Debug)]
pub struct Restoration {
    pub name: String,
    pub value: Option<String>,
}

/// The names of the variables, in the order in which they are restored.
pub open spec fn guarded_names() -> Seq<Seq<char>> {
    seq![
        "RUNTIMO_TEST_PRESSURE"@,
        "RUNTIMO_MEMORY_CEILING_BYTES"@,
        "RUNTIMO_DAL"@,
        "RUNTIMO_SEMANTIC_POLICY"@,
    ]
}

/// A borrowed text, or none.
pub open spec fn str_view(o: Option<&str>) -> Option<Seq<char>> {
    match o {
        Some(s) => Some(s@),
        None => None,
    }
}

/// Borrows a text that may be missing.
fn borrow_text(o: &Option<String>) -> (r: Option<&str>)
    ensures
        str_view(r) == telemetry::text_view(*o),
{
    match o {
        Some(s) => Some(s.as_str()),
        None => None,
    }
}

impl EnvGuard {
    /// The captured values, in the order of the names.
    pub closed spec fn captured(self) -> Seq<Option<Seq<char>>> {
        seq![
            telemetry::text_view(self.pressure),
            telemetry::text_view(self.ceiling),
            telemetry::text_view(self.dal),
            telemetry::text_view(self.semantic_policy),
        ]
    }

    /// Captures the values of the four variables.
    pub fn new(
        pressure: Option<String>,
        ceiling: Option<String>,
        dal: Option<String>,
        semantic_policy: Option<String>,
    ) -> (r: Self)
        ensures
            r.captured() == seq![
                telemetry::text_view(pressure),
                telemetry::text_view(ceiling),
                telemetry::text_view(dal),
                telemetry::text_view(semantic_policy),
            ],
    {
        EnvGuard { pressure, ceiling, dal, semantic_policy }
    }

    /// The captured `RUNTIMO_TEST_PRESSURE`.
    pub fn pressure(&self) -> (r: Option<&str>)
        ensures
            str_view(r) == self.captured()[0],
    {
        borrow_text(&self.pressure)
    }

    /// The captured `RUNTIMO_MEMORY_CEILING_BYTES`.
    pub fn ceiling(&self) -> (r: Option<&str>)
        ensures
            str_view(r) == self.captured()[1],
    {
        borrow_text(&self.ceiling)
    }

    /// The captured `RUNTIMO_DAL`.
    pub fn dal(&self) -> (r: Option<&str>)
        ensures
            str_view(r) == self.captured()[2],
    {
        borrow_text(&self.dal)
    }

    /// The captured `RUNTIMO_SEMANTIC_POLICY`.
    pub fn semantic_policy(&self) -> (r: Option<&str>)
        ensures
            str_view(r) == self.captured()[3],
    {
        borrow_text(&self.semantic_policy)
    }

    /// What is to be done to each variable so that it is as it was.
    pub fn restorations(&self) -> (r: Vec<Restoration>)
        ensures
            is_plan(r@, self.captured()),
    {
        vec![
            Restoration {
                name: "RUNTIMO_TEST_PRESSURE".to_owned(),
                value: telemetry::clone_text(&self.pressure),
            },
            Restoration {
                name: "RUNTIMO_MEMORY_CEILING_BYTES".to_owned(),
                value: telemetry::clone_text(&self.ceiling),
            },
            Restoration {
                name: "RUNTIMO_DAL".to_owned(),
                value: telemetry::clone_text(&self.dal),
            },
            Restoration {
                name: "RUNTIMO_SEMANTIC_POLICY".to_owned(),
                value: telemetry::clone_text(&self.semantic_policy),
            },
        ]
    }
}

/// `plan` gives each guarded variable its captured value.
pub open spec fn is_plan(plan: Seq<Restoration>, captured: Seq<Option<Seq<char>>>) -> bool {
    &&& plan.len() == 4
    &&& forall|i: int|
        0 <= i < 4 ==> (#[trigger] plan[i]).name@ == guarded_names()[i] && telemetry::text_view(
            plan[i].value,
        ) == captured[i]
}

/// The value of a variable.
pub open spec fn value_of(env: Map<Seq<char>, Seq<char>>, name: Seq<char>) -> Option<Seq<char>> {
    if env.dom().contains(name) {
        Some(env[name])
    } else {
        None
    }
}

/// An environment after one variable was given a value or removed.
pub open spec fn changed(env: Map<Seq<char>, Seq<char>>, name: Seq<char>, value: Option<Seq<char>>) -> Map<
    Seq<char>,
    Seq<char>,
> {
    match value {
        Some(v) => env.insert(name, v),
        None => env.remove(name),
    }
}

/// An environment after a plan was carried out.
pub open spec fn carried_out(env: Map<Seq<char>, Seq<char>>, plan: Seq<Restoration>) -> Map<
    Seq<char>,
    Seq<char>,
>
    decreases plan.len(),
{
    if plan.len() == 0 {
        env
    } else {
        changed(
            carried_out(env, plan.drop_last()),
            plan.last().name@,
            telemetry::text_view(plan.last().value),
        )
    }
}

/// Restoring undoes: where the values were captured in the environment `before`, and no other
/// variables were changed since, carrying the plan out gives that environment back.
pub proof fn law_restoring_undoes(
    before: Map<Seq<char>, Seq<char>>,
    after: Map<Seq<char>, Seq<char>>,
    plan: Seq<Restoration>,
)
    requires
        is_plan(
            plan,
            seq![
                value_of(before, guarded_names()[0]),
                value_of(before, guarded_names()[1]),
                value_of(before, guarded_names()[2]),
                value_of(before, guarded_names()[3]),
            ],
        ),
        forall|name: Seq<char>|
            !guarded_names().contains(name) ==> #[trigger] value_of(before, name) == value_of(
                after,
                name,
            ),
    ensures
        carried_out(after, plan) == before,
{
    reveal_strlit("RUNTIMO_TEST_PRESSURE");
    reveal_strlit("RUNTIMO_MEMORY_CEILING_BYTES");
    reveal_strlit("RUNTIMO_DAL");
    reveal_strlit("RUNTIMO_SEMANTIC_POLICY");
    let names = guarded_names();
    assert(names[0].len() == 21 && names[1].len() == 28 && names[2].len() == 11 && names[3].len()
        == 23);
    reveal_with_fuel(carried_out, 5);
    let e0 = changed(after, names[0], value_of(before, names[0]));
    let e1 = changed(e0, names[1], value_of(before, names[1]));
    let e2 = changed(e1, names[2], value_of(before, names[2]));
    let e3 = changed(e2, names[3], value_of(before, names[3]));
    assert(plan.drop_last().last() == plan[2]);
    assert(plan.drop_last().drop_last().last() == plan[1]);
    assert(plan.drop_last().drop_last().drop_last().last() == plan[0]);
    assert(carried_out(after, plan) == e3);
    assert forall|name: Seq<char>| value_of(e3, name) == value_of(before, name) by {
        if !names.contains(name) {
            assert(name != names[0] && name != names[1] && name != names[2] && name != names[3]);
            assert(value_of(before, name) == value_of(after, name));
        } else {
            let i = choose|i: int| 0 <= i < names.len() && names[i] == name;
            assert(i == 0 || i == 1 || i == 2 || i == 3);
        }
    }
    assert forall|name: Seq<char>| e3.dom().contains(name) == before.dom().contains(name) by {
        assert(value_of(e3, name) == value_of(before, name));
    }
    assert forall|name: Seq<char>| e3.dom().contains(name) implies e3[name] == before[name] by {
        assert(value_of(e3, name) == value_of(before, name));
    }
    assert(e3 =~= before);
}


/// The four settings are captured each under its own name, and put back under it.
pub proof fn law_settings_keep_their_names(
    pressure: Option<String>,
    ceiling: Option<String>,
    dal: Option<String>,
    policy: Option<String>,
    g: EnvGuard,
    p: Option<&str>,
    c: Option<&str>,
    d: Option<&str>,
    s: Option<&str>,
    plan: Vec<Restoration>,
)
    requires
        call_ensures(EnvGuard::new, (pressure, ceiling, dal, policy), g),
        call_ensures(EnvGuard::pressure, (&g,), p),
        call_ensures(EnvGuard::ceiling, (&g,), c),
        call_ensures(EnvGuard::dal, (&g,), d),
        call_ensures(EnvGuard::semantic_policy, (&g,), s),
        call_ensures(EnvGuard::restorations, (&g,), plan),
    ensures
        str_view(p) == telemetry::text_view(pressure),
        str_view(c) == telemetry::text_view(ceiling),
        str_view(d) == telemetry::text_view(dal),
        str_view(s) == telemetry::text_view(policy),
        plan@.len() == 4,
        plan@[0].name@ == "RUNTIMO_TEST_PRESSURE"@ && telemetry::text_view(plan@[0].value)
            == telemetry::text_view(pressure),
        plan@[1].name@ == "RUNTIMO_MEMORY_CEILING_BYTES"@ && telemetry::text_view(plan@[1].value)
            == telemetry::text_view(ceiling),
        plan@[2].name@ == "RUNTIMO_DAL"@ && telemetry::text_view(plan@[2].value)
            == telemetry::text_view(dal),
        plan@[3].name@ == "RUNTIMO_SEMANTIC_POLICY"@ && telemetry::text_view(plan@[3].value)
            == telemetry::text_view(policy),
{
    assert(plan@[0].name@ == guarded_names()[0]);
    assert(plan@[1].name@ == guarded_names()[1]);
    assert(plan@[2].name@ == guarded_names()[2]);
    assert(plan@[3].name@ == guarded_names()[3]);
}

} // verus!
