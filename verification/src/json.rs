//! JSON values: the library's own value type, its mathematical model, and the order, equality
//! and text of values.
use vstd::arithmetic::power2::*;
use vstd::prelude::*;
use vstd::string::*;

use crate::text;
use crate::utils;

verus! {

broadcast use vstd::string::group_string_axioms;

/// A finite double that is no integer literal of the JSON text.
///
/// `rank` places it among all finite doubles: the bits of its magnitude, negated for a negative
/// number, so that two doubles compare as their ranks do. `text` is its JSON text.
#[derive(Debug)]
pub struct Double {
    pub rank: i64,
    pub text: String,
}

/// A JSON number: a natural number, a negative integer, or a double.
#[derive(Debug)]
pub enum Number {
    PosInt(u64),
    NegInt(i64),
    Float(Double),
}

/// The members of a JSON object, in the order of their keys and with no key twice.
#[derive(Debug)]
pub struct Object {
    members: Vec<(String, Value)>,
}

/// A JSON value.
#[derive(Debug)]
pub enum Value {
    Null,
    Bool(bool),
    Number(Number),
    String(String),
    Array(Vec<Value>),
    Object(Object),
}

/// The model of a [`Number`].
pub ghost enum Num {
    PosInt(u64),
    NegInt(i64),
    Float(i64, Seq<char>),
}

/// The model of a [`Value`].
pub ghost enum Json {
    Null,
    Bool(bool),
    Number(Num),
    Text(Seq<char>),
    Array(Seq<Json>),
    Object(Seq<(Seq<char>, Json)>),
}

impl Number {
    pub open spec fn view(&self) -> Num {
        match self {
            Number::PosInt(n) => Num::PosInt(*n),
            Number::NegInt(n) => Num::NegInt(*n),
            Number::Float(d) => Num::Float(d.rank, d.text@),
        }
    }
}

impl Object {
    pub closed spec fn view(&self) -> Seq<(Seq<char>, Json)>
        decreases self,
    {
        let m = self.members@;
        Seq::new(
            m.len(),
            |i: int|
                if 0 <= i < m.len() {
                    (m[i].0@, m[i].1.view())
                } else {
                    (Seq::empty(), Json::Null)
                },
        )
    }

    /// The keys of the members increase.
    #[verifier::type_invariant]
    spec fn in_key_order(self) -> bool {
        sorted_keys(self@)
    }
}

impl Value {
    pub open spec fn view(&self) -> Json
        decreases self,
    {
        match self {
            Value::Null => Json::Null,
            Value::Bool(b) => Json::Bool(*b),
            Value::Number(n) => Json::Number(n.view()),
            Value::String(s) => Json::Text(s@),
            Value::Array(items) => Json::Array(
                Seq::new(
                    items@.len(),
                    |i: int|
                        if 0 <= i < items@.len() {
                            items@[i].view()
                        } else {
                            Json::Null
                        },
                ),
            ),
            Value::Object(o) => Json::Object(o.view()),
        }
    }
}

/// The model of a value that may be absent.
pub open spec fn option_view(v: Option<Value>) -> Option<Json> {
    match v {
        Some(x) => Some(x.view()),
        None => None,
    }
}

// ---------------------------------------------------------------------------
// Members of an object
// ---------------------------------------------------------------------------

/// The keys increase from member to member.
pub open spec fn sorted_keys(m: Seq<(Seq<char>, Json)>) -> bool {
    forall|i: int, j: int| 0 <= i < j < m.len() ==> text::text_less(#[trigger] m[i].0, #[trigger] m[j].0)
}

/// The value of the first member under `key`.
pub open spec fn lookup(m: Seq<(Seq<char>, Json)>, key: Seq<char>) -> Option<Json>
    decreases m.len(),
{
    if m.len() == 0 {
        None
    } else if m[0].0 == key {
        Some(m[0].1)
    } else {
        lookup(m.skip(1), key)
    }
}

/// `m` with `key` holding `value`: the member under `key` is replaced, or a new one stands at its
/// place in the order of the keys.
pub open spec fn inserted(m: Seq<(Seq<char>, Json)>, key: Seq<char>, value: Json) -> Seq<
    (Seq<char>, Json),
>
    decreases m.len(),
{
    if m.len() == 0 {
        seq![(key, value)]
    } else if m[0].0 == key {
        seq![(key, value)] + m.skip(1)
    } else if text::text_less(key, m[0].0) {
        seq![(key, value)] + m
    } else {
        seq![m[0]] + inserted(m.skip(1), key, value)
    }
}

/// What stands under a key after an insertion: the new value under its own key, what was there
/// under every other.
pub proof fn lemma_lookup_inserted(
    m: Seq<(Seq<char>, Json)>,
    key: Seq<char>,
    value: Json,
    other: Seq<char>,
)
    ensures
        lookup(inserted(m, key, value), other) == (if other == key {
            Some(value)
        } else {
            lookup(m, other)
        }),
    decreases m.len(),
{
    let r = inserted(m, key, value);
    if m.len() == 0 {
        assert(r.skip(1) =~= m);
    } else if m[0].0 == key {
        assert(r.skip(1) =~= m.skip(1));
    } else if text::text_less(key, m[0].0) {
        assert(r.skip(1) =~= m);
    } else {
        assert(r.skip(1) =~= inserted(m.skip(1), key, value));
        lemma_lookup_inserted(m.skip(1), key, value, other);
    }
}

/// The keys after an insertion are the keys before it and the new one.
proof fn lemma_inserted_keys(m: Seq<(Seq<char>, Json)>, key: Seq<char>, value: Json, i: int)
    requires
        0 <= i < inserted(m, key, value).len(),
    ensures
        inserted(m, key, value)[i].0 == key || exists|j: int|
            0 <= j < m.len() && #[trigger] m[j].0 == inserted(m, key, value)[i].0,
    decreases m.len(),
{
    let r = inserted(m, key, value);
    if m.len() == 0 {
    } else if m[0].0 == key {
        if i > 0 {
            assert(m[i].0 == r[i].0);
        }
    } else if text::text_less(key, m[0].0) {
        if i > 0 {
            assert(m[i - 1].0 == r[i].0);
        }
    } else if i == 0 {
        assert(m[0].0 == r[0].0);
    } else {
        let rest = inserted(m.skip(1), key, value);
        lemma_inserted_keys(m.skip(1), key, value, i - 1);
        assert(r[i] == rest[i - 1]);
        if rest[i - 1].0 != key {
            let j = choose|j: int| 0 <= j < m.skip(1).len() && #[trigger] m.skip(1)[j].0 == rest[i - 1].0;
            assert(m[j + 1].0 == r[i].0);
        }
    }
}

/// An insertion keeps the keys in order.
pub proof fn lemma_inserted_sorted(m: Seq<(Seq<char>, Json)>, key: Seq<char>, value: Json)
    requires
        sorted_keys(m),
    ensures
        sorted_keys(inserted(m, key, value)),
    decreases m.len(),
{
    let r = inserted(m, key, value);
    if m.len() == 0 {
    } else if m[0].0 == key {
        assert forall|i: int, j: int| 0 <= i < j < r.len() implies text::text_less(
            #[trigger] r[i].0,
            #[trigger] r[j].0,
        ) by {
            assert(r[i].0 == m[i].0);
            assert(r[j].0 == m[j].0);
        }
    } else if text::text_less(key, m[0].0) {
        assert forall|i: int, j: int| 0 <= i < j < r.len() implies text::text_less(
            #[trigger] r[i].0,
            #[trigger] r[j].0,
        ) by {
            assert(r[j].0 == m[j - 1].0);
            if i > 0 {
                assert(r[i].0 == m[i - 1].0);
            } else if j > 1 {
                assert(text::text_less(m[0].0, m[j - 1].0));
                text::lemma_text_less_transitive(key, m[0].0, m[j - 1].0);
            }
        }
    } else {
        text::lemma_text_less_total(key, m[0].0);
        let tail = m.skip(1);
        let rest = inserted(tail, key, value);
        assert(sorted_keys(tail)) by {
            assert forall|i: int, j: int| 0 <= i < j < tail.len() implies text::text_less(
                #[trigger] tail[i].0,
                #[trigger] tail[j].0,
            ) by {
                assert(text::text_less(m[i + 1].0, m[j + 1].0));
            }
        }
        lemma_inserted_sorted(tail, key, value);
        assert forall|i: int, j: int| 0 <= i < j < r.len() implies text::text_less(
            #[trigger] r[i].0,
            #[trigger] r[j].0,
        ) by {
            assert(r[j] == rest[j - 1]);
            if i > 0 {
                assert(r[i] == rest[i - 1]);
            } else {
                lemma_inserted_keys(tail, key, value, j - 1);
                if rest[j - 1].0 != key {
                    let k = choose|k: int| 0 <= k < tail.len() && #[trigger] tail[k].0 == rest[j - 1].0;
                    assert(text::text_less(m[0].0, m[k + 1].0));
                }
            }
        }
    }
}

// ---------------------------------------------------------------------------
// Equality
// ---------------------------------------------------------------------------

/// Two numbers are equal: integers by value, doubles by rank, and an integer never equals a double.
pub open spec fn same_num(a: Num, b: Num) -> bool {
    match (a, b) {
        (Num::PosInt(x), Num::PosInt(y)) => x == y,
        (Num::NegInt(x), Num::NegInt(y)) => x == y,
        (Num::Float(x, _), Num::Float(y, _)) => x == y,
        _ => false,
    }
}

/// Two values are equal: of one kind, and equal part by part.
pub open spec fn same_json(a: Json, b: Json) -> bool
    decreases a,
{
    match (a, b) {
        (Json::Null, Json::Null) => true,
        (Json::Bool(x), Json::Bool(y)) => x == y,
        (Json::Number(x), Json::Number(y)) => same_num(x, y),
        (Json::Text(x), Json::Text(y)) => x == y,
        (Json::Array(x), Json::Array(y)) => x.len() == y.len() && (forall|i: int|
            0 <= i < x.len() ==> same_json(#[trigger] x[i], y[i])),
        (Json::Object(x), Json::Object(y)) => x.len() == y.len() && (forall|i: int|
            0 <= i < x.len() ==> (#[trigger] x[i]).0 == y[i].0 && same_json(x[i].1, y[i].1)),
        _ => false,
    }
}

/// Every value equals itself.
pub proof fn lemma_same_json_reflexive(a: Json)
    ensures
        same_json(a, a),
    decreases a,
{
    match a {
        Json::Array(x) => {
            assert forall|i: int| 0 <= i < x.len() implies same_json(#[trigger] x[i], x[i]) by {
                lemma_same_json_reflexive(x[i]);
            }
        },
        Json::Object(x) => {
            assert forall|i: int| 0 <= i < x.len() implies same_json((#[trigger] x[i]).1, x[i].1) by {
                lemma_same_json_reflexive(x[i].1);
            }
        },
        _ => {},
    }
}

// ---------------------------------------------------------------------------
// Numbers as doubles
// ---------------------------------------------------------------------------

/// How many binary digits `n` has.
pub open spec fn bit_length(n: nat) -> nat
    decreases n,
{
    if n == 0 {
        0
    } else {
        1 + bit_length(n / 2)
    }
}

/// `n / unit`, rounded to the nearest integer, and to the even one of two equally near.
pub open spec fn rounded(n: nat, unit: nat) -> nat {
    let q = n / unit;
    let r = n % unit;
    if 2 * r > unit || (2 * r == unit && q % 2 == 1) {
        q + 1
    } else {
        q
    }
}

/// The 53 leading binary digits of `n`, rounded.
pub open spec fn significand(n: nat) -> nat {
    let len = bit_length(n);
    if len <= 53 {
        n * pow2((53 - len) as nat)
    } else {
        rounded(n, pow2((len - 53) as nat))
    }
}

/// The rank of the double nearest to `n`.
pub open spec fn double_rank(n: nat) -> int {
    if n == 0 {
        0
    } else {
        ((1021 + bit_length(n)) * 0x10_0000_0000_0000 + significand(n)) as int
    }
}

/// The rank of a number taken as a double.
pub open spec fn num_rank(n: Num) -> int {
    match n {
        Num::PosInt(x) => double_rank(x as nat),
        Num::NegInt(x) => if x < 0 {
            -double_rank((-x) as nat)
        } else {
            double_rank(x as nat)
        },
        Num::Float(rank, _) => rank as int,
    }
}

/// The rank of a value, where it is a number.
pub open spec fn json_rank(v: Json) -> Option<int> {
    match v {
        Json::Number(n) => Some(num_rank(n)),
        _ => None,
    }
}

/// The integer that the double nearest to `n` stands for.
pub open spec fn double_value(n: nat) -> nat {
    let len = bit_length(n);
    if len <= 53 {
        n
    } else {
        rounded(n, pow2((len - 53) as nat)) * pow2((len - 53) as nat)
    }
}

proof fn lemma_bit_length_bounds(n: nat)
    ensures
        n < pow2(bit_length(n)),
        n > 0 ==> pow2((bit_length(n) - 1) as nat) <= n,
    decreases n,
{
    if n == 0 {
        lemma2_to64();
    } else {
        lemma_bit_length_bounds(n / 2);
        lemma_pow2_unfold(bit_length(n));
        if n / 2 > 0 {
            lemma_pow2_unfold((bit_length(n) - 1) as nat);
        } else {
            lemma2_to64();
        }
    }
}

proof fn lemma_bit_length_at_most(n: nat, k: nat)
    requires
        n < pow2(k),
    ensures
        bit_length(n) <= k,
    decreases k,
{
    if k == 0 {
        lemma2_to64();
    } else if n > 0 {
        lemma_pow2_unfold(k);
        lemma_bit_length_at_most(n / 2, (k - 1) as nat);
    }
}

proof fn lemma_bit_length_monotone(n: nat, m: nat)
    requires
        n <= m,
    ensures
        bit_length(n) <= bit_length(m),
    decreases m,
{
    if n > 0 {
        lemma_bit_length_monotone(n / 2, m / 2);
    }
}

/// The significand of a positive number has 53 digits, or is the least number of 54.
proof fn lemma_significand_bounds(n: nat)
    requires
        n > 0,
    ensures
        0x10_0000_0000_0000 <= significand(n) <= 0x20_0000_0000_0000,
        bit_length(n) <= 53 ==> significand(n) < 0x20_0000_0000_0000,
{
    let len = bit_length(n);
    lemma_bit_length_bounds(n);
    lemma2_to64();
    lemma2_to64_rest();
    if len <= 53 {
        let k = (53 - len) as nat;
        let p = pow2(k);
        lemma_pow2_adds(len, k);
        lemma_pow2_adds((len - 1) as nat, k);
        lemma_pow2_pos(k);
        assert(pow2(53) == 0x20_0000_0000_0000);
        assert(pow2(52) == 0x10_0000_0000_0000);
        let lo = pow2((len - 1) as nat);
        let hi = pow2(len);
        assert(lo * p <= n * p < hi * p) by (nonlinear_arith)
            requires
                lo <= n < hi,
                p > 0,
        ;
    } else {
        let k = (len - 53) as nat;
        let unit = pow2(k);
        lemma_pow2_pos(k);
        lemma_pow2_adds(53, k);
        lemma_pow2_adds(52, k);
        assert(pow2(53) == 0x20_0000_0000_0000);
        assert(pow2(52) == 0x10_0000_0000_0000);
        let q = n / unit;
        assert(0x10_0000_0000_0000 * unit <= n < 0x20_0000_0000_0000 * unit);
        assert(0x10_0000_0000_0000 <= q < 0x20_0000_0000_0000) by (nonlinear_arith)
            requires
                0x10_0000_0000_0000 * unit <= n < 0x20_0000_0000_0000 * unit,
                unit > 0,
                q == n / unit,
        ;
    }
}

proof fn lemma_rounded_monotone(n: nat, m: nat, unit: nat)
    requires
        n <= m,
        unit > 0,
    ensures
        rounded(n, unit) <= rounded(m, unit),
{
    let qn = n / unit;
    let qm = m / unit;
    assert(qn <= qm && (qn == qm ==> n % unit <= m % unit)) by (nonlinear_arith)
        requires
            n <= m,
            unit > 0,
            qn == n / unit,
            qm == m / unit,
    ;
}

/// Taking natural numbers as doubles keeps their order.
pub proof fn law_doubles_keep_order(n: nat, m: nat)
    requires
        n <= m,
    ensures
        double_rank(n) <= double_rank(m),
{
    if n > 0 {
        lemma_bit_length_monotone(n, m);
        lemma_significand_bounds(n);
        lemma_significand_bounds(m);
        if bit_length(n) == bit_length(m) {
            let len = bit_length(n);
            if len <= 53 {
                let p = pow2((53 - len) as nat);
                lemma_pow2_pos((53 - len) as nat);
                assert(n * p <= m * p) by (nonlinear_arith)
                    requires
                        n <= m,
                ;
            } else {
                let unit = pow2((len - 53) as nat);
                lemma_pow2_pos((len - 53) as nat);
                lemma_rounded_monotone(n, m, unit);
            }
        }
    } else if m > 0 {
        lemma_significand_bounds(m);
    }
}

/// Natural numbers below 2^53 are told apart as doubles.
pub proof fn law_small_numbers_stay_apart(n: nat, m: nat)
    requires
        n < m,
        m < 0x20_0000_0000_0000,
    ensures
        double_rank(n) < double_rank(m),
{
    lemma2_to64();
    lemma2_to64_rest();
    assert(pow2(53) == 0x20_0000_0000_0000);
    lemma_bit_length_at_most(m, 53);
    lemma_significand_bounds(m);
    if n > 0 {
        lemma_bit_length_monotone(n, m);
        lemma_significand_bounds(n);
        if bit_length(n) == bit_length(m) {
            let k = (53 - bit_length(n)) as nat;
            let p = pow2(k);
            lemma_pow2_pos(k);
            assert(n * p < m * p) by (nonlinear_arith)
                requires
                    n < m,
                    p > 0,
            ;
        }
    }
}

/// The number of binary digits of `n`.
fn length_of(n: u64) -> (len: u64)
    ensures
        len == bit_length(n as nat),
        len <= 64,
{
    proof {
        lemma2_to64();
        lemma2_to64_rest();
        lemma_bit_length_at_most(n as nat, 64);
    }
    let mut len: u64 = 0;
    let mut m: u64 = n;
    while m > 0
        invariant
            bit_length(n as nat) == len + bit_length(m as nat),
            bit_length(n as nat) <= 64,
        decreases m,
    {
        m = m / 2;
        len = len + 1;
    }
    len
}

/// The power of two that numbers of `len` binary digits are rounded to as doubles.
fn unit_of(len: u64) -> (unit: u64)
    requires
        53 <= len <= 64,
    ensures
        unit == pow2((len - 53) as nat),
        1 <= unit <= 2048,
{
    proof {
        lemma2_to64();
    }
    let mut unit: u64 = 1;
    let mut k: u64 = 53;
    while k < len
        invariant
            53 <= k <= len <= 64,
            unit == pow2((k - 53) as nat),
            pow2(11) == 2048,
        decreases len - k,
    {
        proof {
            lemma_pow2_unfold((k + 1 - 53) as nat);
            lemma_pow2_weakly_increases((k - 53) as nat, 11);
        }
        unit = unit * 2;
        k = k + 1;
    }
    proof {
        lemma_pow2_weakly_increases((len - 53) as nat, 11);
        lemma_pow2_pos((len - 53) as nat);
    }
    unit
}

/// `n / unit`, rounded to the nearest integer, and to the even one of two equally near.
pub(crate) fn round_div(n: u128, unit: u128) -> (r: u128)
    requires
        0 < unit <= 0x8000_0000_0000_0000,
        n < 0x8000_0000_0000_0000_0000_0000,
    ensures
        r == rounded(n as nat, unit as nat),
        r <= n + 1,
{
    let q = n / unit;
    let rest = n % unit;
    assert(q <= n) by (nonlinear_arith)
        requires
            q == n / unit,
            unit > 0,
    ;
    if 2 * rest > unit || (2 * rest == unit && q % 2 == 1) {
        q + 1
    } else {
        q
    }
}

/// The integer that the double nearest to `n` stands for.
pub(crate) fn double_value_of(n: u64) -> (r: u128)
    ensures
        r == double_value(n as nat),
        r <= 0x1_0000_0000_0000_0000,
{
    let len = length_of(n);
    if len <= 53 {
        return n as u128;
    }
    let unit = unit_of(len);
    proof {
        lemma_significand_bounds(n as nat);
    }
    let q = round_div(n as u128, unit as u128);
    assert(q * unit <= 0x20_0000_0000_0000 * 2048) by (nonlinear_arith)
        requires
            q <= 0x20_0000_0000_0000,
            unit <= 2048,
    ;
    q * (unit as u128)
}

/// The rank of the double nearest to `n`.
pub fn rank_of_natural(n: u64) -> (r: i64)
    ensures
        r == double_rank(n as nat),
        0 <= r < 0x7ff0_0000_0000_0000,
{
    if n == 0 {
        return 0;
    }
    proof {
        lemma2_to64();
        lemma2_to64_rest();
        lemma_bit_length_at_most(n as nat, 64);
        lemma_bit_length_bounds(n as nat);
        lemma_significand_bounds(n as nat);
    }
    let len = length_of(n);
    let sig: u64 = if len <= 53 {
        let mut sig: u64 = n;
        let mut k: u64 = len;
        assert(n * pow2(0) == n) by {
            lemma2_to64();
        }
        while k < 53
            invariant
                len <= k <= 53,
                sig == n * pow2((k - len) as nat),
                sig < pow2(k as nat),
                pow2(53) == 0x20_0000_0000_0000,
            decreases 53 - k,
        {
            proof {
                lemma_pow2_unfold((k + 1) as nat);
                lemma_pow2_unfold((k + 1 - len) as nat);
                lemma_pow2_weakly_increases(k as nat, 53);
                let p = pow2((k - len) as nat);
                assert(2 * (n * p) == n * (2 * p)) by (nonlinear_arith);
            }
            sig = sig * 2;
            k = k + 1;
        }
        sig
    } else {
        let unit = unit_of(len);
        let q: u64 = n / unit;
        let r: u64 = n % unit;
        if 2 * r > unit || (2 * r == unit && q % 2 == 1) {
            q + 1
        } else {
            q
        }
    };
    ((1021 + len) * 0x10_0000_0000_0000 + sig) as i64
}

proof fn lemma_pow2_weakly_increases(a: nat, b: nat)
    requires
        a <= b,
    ensures
        pow2(a) <= pow2(b),
{
    if a < b {
        lemma_pow2_strictly_increases(a, b);
    }
}

// ---------------------------------------------------------------------------
// Text
// ---------------------------------------------------------------------------

/// A character within a JSON string literal: quotes, backslashes and control characters are
/// escaped, by their short escapes where there is one.
pub open spec fn json_escaped(c: char) -> Seq<char> {
    if c == '"' || c == '\\' {
        seq!['\\', c]
    } else if c as int == 0x08 {
        seq!['\\', 'b']
    } else if c as int == 0x09 {
        seq!['\\', 't']
    } else if c as int == 0x0a {
        seq!['\\', 'n']
    } else if c as int == 0x0c {
        seq!['\\', 'f']
    } else if c as int == 0x0d {
        seq!['\\', 'r']
    } else if (c as int) < 0x20 {
        seq!['\\', 'u', '0', '0', utils::hex_digit(c as int / 16), utils::hex_digit(c as int % 16)]
    } else {
        seq![c]
    }
}

/// A text within a JSON string literal.
pub open spec fn json_inner(s: Seq<char>) -> Seq<char>
    decreases s.len(),
{
    if s.len() == 0 {
        Seq::empty()
    } else {
        json_inner(s.drop_last()) + json_escaped(s.last())
    }
}

/// The JSON string literal for a text.
pub open spec fn json_quoted(s: Seq<char>) -> Seq<char> {
    seq!['"'] + json_inner(s) + seq!['"']
}

/// The Rust string literal for a text, as the `{:?}` format of `str` writes it.
pub uninterp spec fn debug_quoted(s: Seq<char>) -> Seq<char>;

/// Quotes a text as a JSON string, by `serde_json::to_string`. It puts quotes around the text and
/// escapes quotes, backslashes and the control characters below a space, as [`json_quoted`] says;
/// every other character stands as it is.
#[verifier::external_body]
fn quote_json(s: &str) -> (r: String)
    ensures
        r@ == json_quoted(s@),
{
    serde_json::to_string(s).unwrap_or_default()
}

/// Quotes a text as a Rust string literal, by the `Debug` format of `str`. The result is a
/// function of the text alone and is named [`debug_quoted`]; which characters it escapes is left
/// to that format.
#[verifier::external_body]
pub(crate) fn quote_debug(s: &str) -> (r: String)
    ensures
        r@ == debug_quoted(s@),
{
    format!("{:?}", s)
}

/// The JSON text of a number.
pub open spec fn num_text(n: Num) -> Seq<char> {
    match n {
        Num::PosInt(x) => text::decimal(x as nat),
        Num::NegInt(x) => text::signed_decimal(x as int),
        Num::Float(_, t) => t,
    }
}

/// The JSON text of a value, without spaces.
pub open spec fn compact(v: Json) -> Seq<char>
    decreases v,
{
    match v {
        Json::Null => "null"@,
        Json::Bool(b) => if b {
            "true"@
        } else {
            "false"@
        },
        Json::Number(n) => num_text(n),
        Json::Text(s) => json_quoted(s),
        Json::Array(x) => "["@ + text::joined(compact_each(x), ","@) + "]"@,
        Json::Object(m) => "{"@ + text::joined(compact_pairs(m), ","@) + "}"@,
    }
}

/// The JSON texts of values, one by one.
pub open spec fn compact_each(x: Seq<Json>) -> Seq<Seq<char>>
    decreases x,
{
    if x.len() == 0 {
        Seq::empty()
    } else {
        compact_each(x.drop_last()).push(compact(x.last()))
    }
}

/// The JSON texts of members, one by one: the key, a colon, the value.
pub open spec fn compact_pairs(m: Seq<(Seq<char>, Json)>) -> Seq<Seq<char>>
    decreases m,
{
    if m.len() == 0 {
        Seq::empty()
    } else {
        compact_pairs(m.drop_last()).push(json_quoted(m.last().0) + ":"@ + compact(m.last().1))
    }
}

/// A value as messages show it: its kind and what it holds.
pub open spec fn shown(v: Json) -> Seq<char>
    decreases v,
{
    match v {
        Json::Null => "Null"@,
        Json::Bool(b) => if b {
            "Bool(true)"@
        } else {
            "Bool(false)"@
        },
        Json::Number(n) => "Number("@ + num_text(n) + ")"@,
        Json::Text(s) => "String("@ + debug_quoted(s) + ")"@,
        Json::Array(x) => "Array ["@ + text::joined(shown_each(x), ", "@) + "]"@,
        Json::Object(m) => "Object {"@ + text::joined(shown_pairs(m), ", "@) + "}"@,
    }
}

/// Values as messages show them, one by one.
pub open spec fn shown_each(x: Seq<Json>) -> Seq<Seq<char>>
    decreases x,
{
    if x.len() == 0 {
        Seq::empty()
    } else {
        shown_each(x.drop_last()).push(shown(x.last()))
    }
}

/// Members as messages show them, one by one: the key, a colon and a space, the value.
pub open spec fn shown_pairs(m: Seq<(Seq<char>, Json)>) -> Seq<Seq<char>>
    decreases m,
{
    if m.len() == 0 {
        Seq::empty()
    } else {
        shown_pairs(m.drop_last()).push(debug_quoted(m.last().0) + ": "@ + shown(m.last().1))
    }
}

impl Number {
    /// The number's place among the doubles.
    pub fn rank(&self) -> (r: i64)
        ensures
            r == num_rank(self@),
    {
        match self {
            Number::PosInt(n) => rank_of_natural(*n),
            Number::NegInt(n) => {
                if *n >= 0 {
                    rank_of_natural(*n as u64)
                } else {
                    let size: u64 = if *n == i64::MIN {
                        9223372036854775808u64
                    } else {
                        (-*n) as u64
                    };
                    -rank_of_natural(size)
                }
            },
            Number::Float(d) => d.rank,
        }
    }

    /// The JSON text of the number.
    pub fn text(&self) -> (r: String)
        ensures
            r@ == num_text(self@),
    {
        match self {
            Number::PosInt(n) => text::decimal_text(*n),
            Number::NegInt(n) => text::signed_text(*n),
            Number::Float(d) => d.text.clone(),
        }
    }

    /// Whether two numbers are equal as JSON numbers.
    pub fn equals(&self, other: &Number) -> (r: bool)
        ensures
            r == same_num(self@, other@),
    {
        match (self, other) {
            (Number::PosInt(x), Number::PosInt(y)) => *x == *y,
            (Number::NegInt(x), Number::NegInt(y)) => *x == *y,
            (Number::Float(x), Number::Float(y)) => x.rank == y.rank,
            _ => false,
        }
    }
}

impl Clone for Number {
    fn clone(&self) -> (r: Self)
        ensures
            r@ == self@,
    {
        match self {
            Number::PosInt(n) => Number::PosInt(*n),
            Number::NegInt(n) => Number::NegInt(*n),
            Number::Float(d) => Number::Float(Double { rank: d.rank, text: d.text.clone() }),
        }
    }
}

impl Object {
    /// An object without members.
    pub fn new() -> (r: Self)
        ensures
            r@ == Seq::<(Seq<char>, Json)>::empty(),
    {
        let r = Object { members: Vec::new() };
        assert(r@ =~= Seq::<(Seq<char>, Json)>::empty());
        r
    }

    /// The object with `key` holding `value`.
    pub fn with(self, key: String, value: Value) -> (r: Self)
        ensures
            r@ == inserted(self@, key@, value@),
    {
        proof {
            use_type_invariant(&self);
            lemma_inserted_sorted(self@, key@, value@);
        }
        let ghost old_view = self@;
        let old = self.members;
        let n = old.len();
        let mut i: usize = 0;
        assert(old_view.skip(0) =~= old_view);
        assert(old_view.take(0) + inserted(old_view, key@, value@) =~= inserted(
            old_view,
            key@,
            value@,
        ));
        while i < n && !text::same(old[i].0.as_str(), key.as_str()) && !text::less(
            key.as_str(),
            old[i].0.as_str(),
        )
            invariant
                n == old@.len(),
                i <= n,
                old_view.len() == n,
                forall|j: int| 0 <= j < n ==> old_view[j] == (old@[j].0@, old@[j].1@),
                inserted(old_view, key@, value@) == old_view.take(i as int) + inserted(
                    old_view.skip(i as int),
                    key@,
                    value@,
                ),
            decreases n - i,
        {
            proof {
                let tail = old_view.skip(i as int);
                assert(tail[0] == old_view[i as int]);
                assert(tail.skip(1) =~= old_view.skip(i + 1));
                assert(old_view.take(i as int) + (seq![tail[0]] + inserted(
                    tail.skip(1),
                    key@,
                    value@,
                )) =~= old_view.take(i + 1) + inserted(old_view.skip(i + 1), key@, value@));
            }
            i = i + 1;
        }
        let ghost tail = old_view.skip(i as int);
        let ghost k = key@;
        let ghost v = value@;
        let mut members = old;
        if i < n && text::same(members[i].0.as_str(), key.as_str()) {
            assert(tail[0] == old_view[i as int]);
            let _ = members.remove(i);
            members.insert(i, (key, value));
            proof {
                let made = Object { members };
                assert(made@ =~= inserted(old_view, k, v));
            }
            Object { members }
        } else {
            if i < n {
                assert(tail[0] == old_view[i as int]);
            }
            members.insert(i, (key, value));
            proof {
                let made = Object { members };
                assert(made@ =~= inserted(old_view, k, v));
            }
            Object { members }
        }
    }

    /// The value under `key`.
    pub fn get(&self, key: &str) -> (r: Option<&Value>)
        ensures
            match r {
                Some(v) => lookup(self@, key@) == Some(v@),
                None => lookup(self@, key@) is None,
            },
    {
        let n = self.members.len();
        let mut i: usize = 0;
        assert(self@.skip(0) =~= self@);
        while i < n
            invariant
                i <= n,
                n == self@.len(),
                n == self.members@.len(),
                forall|j: int| 0 <= j < n ==> self@[j] == (self.members@[j].0@, self.members@[j].1@),
                lookup(self@, key@) == lookup(self@.skip(i as int), key@),
            decreases n - i,
        {
            assert(self@.skip(i as int)[0] == self@[i as int]);
            if text::same(self.members[i].0.as_str(), key) {
                return Some(&self.members[i].1);
            }
            assert(self@.skip(i as int).skip(1) =~= self@.skip(i + 1));
            i = i + 1;
        }
        None
    }

    /// How many members there are.
    pub fn len(&self) -> (n: usize)
        ensures
            n == self@.len(),
    {
        self.members.len()
    }

    /// The key of the member at `i`.
    pub fn key_at(&self, i: usize) -> (r: &String)
        requires
            i < self@.len(),
        ensures
            r@ == self@[i as int].0,
    {
        &self.members[i].0
    }

    /// The value of the member at `i`.
    pub fn value_at(&self, i: usize) -> (r: &Value)
        requires
            i < self@.len(),
        ensures
            r@ == self@[i as int].1,
    {
        &self.members[i].1
    }

    /// Whether two objects hold equal values under the same keys.
    pub fn equals(&self, other: &Object) -> (r: bool)
        ensures
            r == same_json(Json::Object(self@), Json::Object(other@)),
        decreases self,
    {
        if self.members.len() != other.members.len() {
            return false;
        }
        for i in 0..self.members.len()
            invariant
                self.members@.len() == other.members@.len(),
                forall|j: int|
                    0 <= j < i ==> (#[trigger] self@[j]).0 == other@[j].0 && same_json(
                        self@[j].1,
                        other@[j].1,
                    ),
        {
            assert(self@[i as int] == (self.members@[i as int].0@, self.members@[i as int].1@));
            assert(other@[i as int] == (other.members@[i as int].0@, other.members@[i as int].1@));
            if !text::same(self.members[i].0.as_str(), other.members[i].0.as_str()) {
                return false;
            }
            if !self.members[i].1.equals(&other.members[i].1) {
                return false;
            }
        }
        true
    }

    /// The JSON texts of the members.
    fn compact_members(&self) -> (r: Vec<String>)
        ensures
            text::texts(r@) == compact_pairs(self@),
        decreases self, 0int,
    {
        let mut out: Vec<String> = Vec::new();
        assert(text::texts(out@) =~= compact_pairs(self@.take(0)));
        for i in 0..self.members.len()
            invariant
                text::texts(out@) == compact_pairs(self@.take(i as int)),
        {
            assert(self@[i as int] == (self.members@[i as int].0@, self.members@[i as int].1@));
            assert(self@.take(i + 1).drop_last() =~= self@.take(i as int));
            let ghost before = out@;
            let mut part = quote_json(self.members[i].0.as_str());
            part.append(":");
            let value = self.members[i].1.to_text();
            part.append(value.as_str());
            out.push(part);
            assert(text::texts(out@) =~= text::texts(before).push(part@));
        }
        assert(self@.take(self@.len() as int) =~= self@);
        out
    }

    /// The members as messages show them.
    fn shown_members(&self) -> (r: Vec<String>)
        ensures
            text::texts(r@) == shown_pairs(self@),
        decreases self, 0int,
    {
        let mut out: Vec<String> = Vec::new();
        assert(text::texts(out@) =~= shown_pairs(self@.take(0)));
        for i in 0..self.members.len()
            invariant
                text::texts(out@) == shown_pairs(self@.take(i as int)),
        {
            assert(self@[i as int] == (self.members@[i as int].0@, self.members@[i as int].1@));
            assert(self@.take(i + 1).drop_last() =~= self@.take(i as int));
            let ghost before = out@;
            let mut part = quote_debug(self.members[i].0.as_str());
            part.append(": ");
            let value = self.members[i].1.show();
            part.append(value.as_str());
            out.push(part);
            assert(text::texts(out@) =~= text::texts(before).push(part@));
        }
        assert(self@.take(self@.len() as int) =~= self@);
        out
    }
}

impl Clone for Object {
    fn clone(&self) -> (r: Self)
        ensures
            r@ == self@,
        decreases self,
    {
        proof {
            use_type_invariant(self);
        }
        let mut members: Vec<(String, Value)> = Vec::new();
        for i in 0..self.members.len()
            invariant
                members@.len() == i,
                forall|j: int|
                    0 <= j < i ==> members@[j].0@ == self.members@[j].0@ && members@[j].1@
                        == self.members@[j].1@,
        {
            let k = self.members[i].0.clone();
            let v = self.members[i].1.clone();
            members.push((k, v));
        }
        proof {
            let copy = Object { members };
            assert(copy@ =~= self@);
        }
        Object { members }
    }
}

fn clone_items(items: &Vec<Value>) -> (r: Vec<Value>)
    ensures
        r@.len() == items@.len(),
        forall|j: int| 0 <= j < r@.len() ==> r@[j]@ == items@[j]@,
    decreases items,
{
    let mut out: Vec<Value> = Vec::new();
    for i in 0..items.len()
        invariant
            out@.len() == i,
            forall|j: int| 0 <= j < i ==> out@[j]@ == items@[j]@,
    {
        let v = items[i].clone();
        out.push(v);
    }
    out
}

fn equal_items(a: &Vec<Value>, b: &Vec<Value>) -> (r: bool)
    ensures
        r == (a@.len() == b@.len() && forall|i: int|
            0 <= i < a@.len() ==> same_json(#[trigger] a@[i]@, b@[i]@)),
    decreases a,
{
    if a.len() != b.len() {
        return false;
    }
    for i in 0..a.len()
        invariant
            a@.len() == b@.len(),
            forall|j: int| 0 <= j < i ==> same_json(#[trigger] a@[j]@, b@[j]@),
    {
        if !a[i].equals(&b[i]) {
            return false;
        }
    }
    true
}

/// The models of values, one by one.
pub open spec fn views(items: Seq<Value>) -> Seq<Json> {
    items.map_values(|v: Value| v.view())
}

fn compact_items(items: &Vec<Value>) -> (r: Vec<String>)
    ensures
        text::texts(r@) == compact_each(views(items@)),
    decreases items, 0int,
{
    let mut out: Vec<String> = Vec::new();
    assert(text::texts(out@) =~= compact_each(views(items@).take(0)));
    for i in 0..items.len()
        invariant
            text::texts(out@) == compact_each(views(items@).take(i as int)),
    {
        assert(views(items@).take(i + 1).drop_last() =~= views(items@).take(i as int));
        let ghost before = out@;
        let t = items[i].to_text();
        out.push(t);
        assert(text::texts(out@) =~= text::texts(before).push(t@));
    }
    assert(views(items@).take(items@.len() as int) =~= views(items@));
    out
}

fn shown_items(items: &Vec<Value>) -> (r: Vec<String>)
    ensures
        text::texts(r@) == shown_each(views(items@)),
    decreases items, 0int,
{
    let mut out: Vec<String> = Vec::new();
    assert(text::texts(out@) =~= shown_each(views(items@).take(0)));
    for i in 0..items.len()
        invariant
            text::texts(out@) == shown_each(views(items@).take(i as int)),
    {
        assert(views(items@).take(i + 1).drop_last() =~= views(items@).take(i as int));
        let ghost before = out@;
        let t = items[i].show();
        out.push(t);
        assert(text::texts(out@) =~= text::texts(before).push(t@));
    }
    assert(views(items@).take(items@.len() as int) =~= views(items@));
    out
}

impl Clone for Value {
    fn clone(&self) -> (r: Self)
        ensures
            r@ == self@,
        decreases self,
    {
        match self {
            Value::Null => Value::Null,
            Value::Bool(b) => Value::Bool(*b),
            Value::Number(n) => Value::Number(n.clone()),
            Value::String(s) => Value::String(s.clone()),
            Value::Array(items) => {
                let r = Value::Array(clone_items(items));
                assert(r@->Array_0 =~= self@->Array_0);
                r
            },
            Value::Object(o) => Value::Object(o.clone()),
        }
    }
}

impl Value {
    /// A natural number.
    pub fn from_natural(n: u64) -> (r: Value)
        ensures
            r@ == Json::Number(Num::PosInt(n)),
    {
        Value::Number(Number::PosInt(n))
    }

    /// A text.
    pub fn from_text(s: &str) -> (r: Value)
        ensures
            r@ == Json::Text(s@),
    {
        Value::String(s.to_owned())
    }

    /// Whether the value is a number.
    pub fn is_number(&self) -> (r: bool)
        ensures
            r == (self@ is Number),
    {
        matches!(self, Value::Number(_))
    }

    /// The text that the value is, where it is one.
    pub fn as_str(&self) -> (r: Option<&str>)
        ensures
            match r {
                Some(s) => self@ == Json::Text(s@),
                None => !(self@ is Text),
            },
    {
        match self {
            Value::String(s) => Some(s.as_str()),
            _ => None,
        }
    }

    /// The boolean that the value is, where it is one.
    pub fn as_bool(&self) -> (r: Option<bool>)
        ensures
            match r {
                Some(b) => self@ == Json::Bool(b),
                None => !(self@ is Bool),
            },
    {
        match self {
            Value::Bool(b) => Some(*b),
            _ => None,
        }
    }

    /// The natural number that the value is, where it is one.
    pub fn as_u64(&self) -> (r: Option<u64>)
        ensures
            match r {
                Some(n) => self@ == Json::Number(Num::PosInt(n)) || (self@ == Json::Number(
                    Num::NegInt(n as i64),
                ) && n <= i64::MAX),
                None => match self@ {
                    Json::Number(Num::PosInt(_)) => false,
                    Json::Number(Num::NegInt(n)) => n < 0,
                    _ => true,
                },
            },
    {
        match self {
            Value::Number(Number::PosInt(n)) => Some(*n),
            Value::Number(Number::NegInt(n)) => if *n >= 0 {
                Some(*n as u64)
            } else {
                None
            },
            _ => None,
        }
    }

    /// The place among the doubles of the number that the value is, where it is one.
    pub fn as_rank(&self) -> (r: Option<i64>)
        ensures
            match r {
                Some(n) => json_rank(self@) == Some(n as int),
                None => json_rank(self@) is None,
            },
    {
        match self {
            Value::Number(n) => Some(n.rank()),
            _ => None,
        }
    }

    /// The value under `key`, where the value is an object that has one.
    pub fn get(&self, key: &str) -> (r: Option<&Value>)
        ensures
            match r {
                Some(v) => member(self@, key@) == Some(v@),
                None => member(self@, key@) is None,
            },
    {
        match self {
            Value::Object(o) => o.get(key),
            _ => None,
        }
    }

    /// Whether two values are equal as JSON values.
    pub fn equals(&self, other: &Value) -> (r: bool)
        ensures
            r == same_json(self@, other@),
        decreases self,
    {
        match (self, other) {
            (Value::Null, Value::Null) => true,
            (Value::Bool(x), Value::Bool(y)) => *x == *y,
            (Value::Number(x), Value::Number(y)) => x.equals(y),
            (Value::String(x), Value::String(y)) => text::same(x.as_str(), y.as_str()),
            (Value::Array(x), Value::Array(y)) => {
                let r = equal_items(x, y);
                proof {
                    let a = self@->Array_0;
                    let b = other@->Array_0;
                    assert(forall|i: int| 0 <= i < x@.len() ==> a[i] == #[trigger] x@[i]@);
                    assert(forall|i: int| 0 <= i < y@.len() ==> b[i] == #[trigger] y@[i]@);
                    if r {
                        assert forall|i: int| 0 <= i < a.len() implies same_json(
                            #[trigger] a[i],
                            b[i],
                        ) by {
                            assert(same_json(x@[i]@, y@[i]@));
                        }
                    } else if a.len() == b.len() {
                        let i = choose|i: int|
                            0 <= i < x@.len() && !same_json(#[trigger] x@[i]@, y@[i]@);
                        assert(!same_json(a[i], b[i]));
                    }
                }
                r
            },
            (Value::Object(x), Value::Object(y)) => x.equals(y),
            _ => false,
        }
    }

    /// The JSON text of the value, without spaces.
    pub fn to_text(&self) -> (r: String)
        ensures
            r@ == compact(self@),
        decreases self, 1int,
    {
        match self {
            Value::Null => "null".to_owned(),
            Value::Bool(b) => if *b {
                "true".to_owned()
            } else {
                "false".to_owned()
            },
            Value::Number(n) => n.text(),
            Value::String(s) => quote_json(s.as_str()),
            Value::Array(items) => {
                let parts = compact_items(items);
                let mut r = "[".to_owned();
                r.append(text::join(&parts, ",").as_str());
                r.append("]");
                assert(views(items@) =~= self@->Array_0);
                r
            },
            Value::Object(o) => {
                let parts = o.compact_members();
                let mut r = "{".to_owned();
                r.append(text::join(&parts, ",").as_str());
                r.append("}");
                r
            },
        }
    }

    /// The value as messages show it.
    pub fn show(&self) -> (r: String)
        ensures
            r@ == shown(self@),
        decreases self, 1int,
    {
        match self {
            Value::Null => "Null".to_owned(),
            Value::Bool(b) => if *b {
                "Bool(true)".to_owned()
            } else {
                "Bool(false)".to_owned()
            },
            Value::Number(n) => {
                let mut r = "Number(".to_owned();
                r.append(n.text().as_str());
                r.append(")");
                r
            },
            Value::String(s) => {
                let mut r = "String(".to_owned();
                r.append(quote_debug(s.as_str()).as_str());
                r.append(")");
                r
            },
            Value::Array(items) => {
                let parts = shown_items(items);
                let mut r = "Array [".to_owned();
                r.append(text::join(&parts, ", ").as_str());
                r.append("]");
                assert(views(items@) =~= self@->Array_0);
                r
            },
            Value::Object(o) => {
                let parts = o.shown_members();
                let mut r = "Object {".to_owned();
                r.append(text::join(&parts, ", ").as_str());
                r.append("}");
                r
            },
        }
    }
}

/// The value under `key`, where `v` is an object that has one.
pub open spec fn member(v: Json, key: Seq<char>) -> Option<Json> {
    match v {
        Json::Object(m) => lookup(m, key),
        _ => None,
    }
}

impl PartialEq for Value {
    fn eq(&self, other: &Self) -> (r: bool) {
        self.equals(other)
    }
}

impl vstd::std_specs::cmp::PartialEqSpecImpl for Value {
    open spec fn obeys_eq_spec() -> bool {
        true
    }

    open spec fn eq_spec(&self, other: &Self) -> bool {
        same_json(self@, other@)
    }
}

// ---------------------------------------------------------------------------
// What holds of values
// ---------------------------------------------------------------------------

/// What is found under a key is what the first member with that key holds; where no member has it,
/// nothing is found. A value that is no object has no members.
pub proof fn law_members_are_found(m: Seq<(Seq<char>, Json)>, key: Seq<char>, other: Json)
    ensures
        match member(Json::Object(m), key) {
            Some(v) => exists|i: int|
                0 <= i < m.len() && #[trigger] m[i] == (key, v) && forall|j: int|
                    0 <= j < i ==> (#[trigger] m[j]).0 != key,
            None => forall|i: int| 0 <= i < m.len() ==> (#[trigger] m[i]).0 != key,
        },
        !(other is Object) ==> member(other, key) is None,
    decreases m.len(),
{
    if m.len() > 0 {
        if m[0].0 == key {
            assert(m[0] == (key, m[0].1));
        } else {
            let rest = m.skip(1);
            law_members_are_found(rest, key, other);
            match lookup(rest, key) {
                Some(v) => {
                    let i = choose|i: int|
                        0 <= i < rest.len() && #[trigger] rest[i] == (key, v) && forall|j: int|
                            0 <= j < i ==> (#[trigger] rest[j]).0 != key;
                    assert(m[i + 1] == (key, v));
                    assert forall|j: int| 0 <= j < i + 1 implies (#[trigger] m[j]).0 != key by {
                        if j > 0 {
                            assert(rest[j - 1] == m[j]);
                        }
                    }
                },
                None => {
                    assert forall|i: int| 0 <= i < m.len() implies (#[trigger] m[i]).0 != key by {
                        if i > 0 {
                            assert(rest[i - 1] == m[i]);
                        }
                    }
                },
            }
        }
    }
}

/// An insertion puts the value under its key, leaves every other key as it was, and keeps the keys
/// in order.
pub proof fn law_insertion(
    m: Seq<(Seq<char>, Json)>,
    key: Seq<char>,
    value: Json,
    other: Seq<char>,
)
    requires
        sorted_keys(m),
    ensures
        member(Json::Object(inserted(m, key, value)), key) == Some(value),
        other != key ==> member(Json::Object(inserted(m, key, value)), other) == member(
            Json::Object(m),
            other,
        ),
        forall|i: int, j: int|
            0 <= i < j < inserted(m, key, value).len() ==> text::text_less(
                #[trigger] inserted(m, key, value)[i].0,
                #[trigger] inserted(m, key, value)[j].0,
            ),
{
    lemma_lookup_inserted(m, key, value, key);
    lemma_lookup_inserted(m, key, value, other);
    lemma_inserted_sorted(m, key, value);
}

/// No double is in the value.
pub open spec fn without_doubles(v: Json) -> bool
    decreases v,
{
    match v {
        Json::Number(n) => !(n is Float),
        Json::Array(x) => forall|i: int| 0 <= i < x.len() ==> without_doubles(#[trigger] x[i]),
        Json::Object(x) => forall|i: int| 0 <= i < x.len() ==> without_doubles((#[trigger] x[i]).1),
        _ => true,
    }
}

/// Values without doubles are equal exactly where they are the same in every part, and doubles where
/// they have the same place among the doubles; a double equals no integer.
pub proof fn law_equality(a: Json, b: Json, x: i64, s: Seq<char>, y: i64, t: Seq<char>)
    ensures
        without_doubles(a) ==> (same_json(a, b) <==> a == b),
        same_json(Json::Number(Num::Float(x, s)), Json::Number(Num::Float(y, t))) <==> x == y,
        same_json(Json::Number(Num::Float(x, s)), b) ==> (b matches Json::Number(n) && n is Float),
    decreases a,
{
    if without_doubles(a) {
        if a == b {
            lemma_same_json_reflexive(a);
        }
        if same_json(a, b) {
            match (a, b) {
                (Json::Array(p), Json::Array(q)) => {
                    assert forall|i: int| 0 <= i < p.len() implies p[i] == q[i] by {
                        law_equality(p[i], q[i], x, s, y, t);
                    }
                    assert(p =~= q);
                },
                (Json::Object(p), Json::Object(q)) => {
                    assert forall|i: int| 0 <= i < p.len() implies p[i] == q[i] by {
                        law_equality(p[i].1, q[i].1, x, s, y, t);
                        assert(p[i].0 == q[i].0);
                    }
                    assert(p =~= q);
                },
                _ => {},
            }
        }
    }
}

/// The integer that a number is.
pub open spec fn integer_of(n: Num) -> Option<int> {
    match n {
        Num::PosInt(x) => Some(x as int),
        Num::NegInt(x) => Some(x as int),
        Num::Float(_, _) => None,
    }
}

/// Integers of less than 2^53 in size compare as integers do.
pub proof fn law_integers_compare(a: Num, b: Num)
    requires
        integer_of(a) matches Some(x) && -0x20_0000_0000_0000 < x < 0x20_0000_0000_0000,
        integer_of(b) matches Some(y) && -0x20_0000_0000_0000 < y < 0x20_0000_0000_0000,
    ensures
        num_rank(a) < num_rank(b) <==> integer_of(a)->0 < integer_of(b)->0,
        num_rank(a) == num_rank(b) <==> integer_of(a)->0 == integer_of(b)->0,
        json_rank(Json::Number(a)) == Some(num_rank(a)),
{
    let x = integer_of(a)->0;
    let y = integer_of(b)->0;
    let p = (if x < 0 {
        -x
    } else {
        x
    }) as nat;
    let q = (if y < 0 {
        -y
    } else {
        y
    }) as nat;
    if p < q {
        law_small_numbers_stay_apart(p, q);
    }
    if q < p {
        law_small_numbers_stay_apart(q, p);
    }
    if p > 0 {
        law_small_numbers_stay_apart(0, p);
    }
    if q > 0 {
        law_small_numbers_stay_apart(0, q);
    }
}

proof fn lemma_inner_of_sum(a: Seq<char>, b: Seq<char>)
    ensures
        json_inner(a + b) == json_inner(a) + json_inner(b),
    decreases b.len(),
{
    if b.len() == 0 {
        assert(a + b =~= a);
        assert(json_inner(a) + json_inner(b) =~= json_inner(a));
    } else {
        lemma_inner_of_sum(a, b.drop_last());
        assert((a + b).drop_last() =~= a + b.drop_last());
        assert(json_inner(a) + json_inner(b.drop_last()) + json_escaped(b.last()) =~= json_inner(a)
            + (json_inner(b.drop_last()) + json_escaped(b.last())));
    }
}

/// A quoted text stands between quotes and holds no control character. What needs no escape stands
/// in it as it is, wherever it stands.
pub proof fn law_quoted(before: Seq<char>, s: Seq<char>, behind: Seq<char>)
    requires
        forall|i: int|
            0 <= i < s.len() ==> #[trigger] s[i] != '"' && s[i] != '\\' && s[i] as int >= 0x20,
    ensures
        json_quoted(s) == seq!['"'] + s + seq!['"'],
        json_quoted(before + s + behind) == seq!['"'] + (json_inner(before) + s + json_inner(behind))
            + seq!['"'],
        json_quoted(before)[0] == '"',
        json_quoted(before)[json_quoted(before).len() - 1] == '"',
        forall|i: int|
            0 <= i < json_quoted(before).len() ==> #[trigger] json_quoted(before)[i] as int >= 0x20,
{
    lemma_inner_plain(s);
    lemma_inner_of_sum(before + s, behind);
    lemma_inner_of_sum(before, s);
    lemma_inner_clean(before);
}

proof fn lemma_inner_plain(s: Seq<char>)
    requires
        forall|i: int|
            0 <= i < s.len() ==> #[trigger] s[i] != '"' && s[i] != '\\' && s[i] as int >= 0x20,
    ensures
        json_inner(s) == s,
    decreases s.len(),
{
    if s.len() > 0 {
        let rest = s.drop_last();
        assert forall|i: int| 0 <= i < rest.len() implies #[trigger] rest[i] != '"' && rest[i]
            != '\\' && rest[i] as int >= 0x20 by {
            assert(rest[i] == s[i]);
        }
        lemma_inner_plain(rest);
        let c = s[s.len() - 1];
        assert(json_escaped(c) == seq![c]);
        assert(rest + seq![c] =~= s);
    } else {
        assert(s =~= Seq::<char>::empty());
    }
}

proof fn lemma_escape_clean(c: char)
    ensures
        forall|i: int| 0 <= i < json_escaped(c).len() ==> #[trigger] json_escaped(c)[i] as int >= 0x20,
{
    let n = c as int;
    if n < 0x20 {
        assert(0 <= n / 16 <= 1 && 0 <= n % 16 < 16);
    }
}

proof fn lemma_inner_clean(s: Seq<char>)
    ensures
        forall|i: int|
            0 <= i < json_inner(s).len() ==> #[trigger] json_inner(s)[i] as int >= 0x20,
    decreases s.len(),
{
    if s.len() > 0 {
        lemma_inner_clean(s.drop_last());
        let front = json_inner(s.drop_last());
        let tail = json_escaped(s.last());
        lemma_escape_clean(s.last());
        assert forall|i: int| 0 <= i < json_inner(s).len() implies #[trigger] json_inner(s)[i] as int
            >= 0x20 by {
            if i < front.len() {
                assert(json_inner(s)[i] == front[i]);
            } else {
                assert(json_inner(s)[i] == tail[i - front.len()]);
            }
        }
    }
}

/// Each character that needs an escape has its own: a quote and a backslash a backslash before them,
/// the common control characters their letter, and any other its number.
pub proof fn law_escapes(c: char)
    ensures
        json_quoted(seq!['"']) == seq!['"', '\\', '"', '"'],
        json_quoted(seq!['\\']) == seq!['"', '\\', '\\', '"'],
        json_quoted(seq!['\n']) == seq!['"', '\\', 'n', '"'],
        json_quoted(seq!['\r']) == seq!['"', '\\', 'r', '"'],
        json_quoted(seq!['\t']) == seq!['"', '\\', 't', '"'],
        json_quoted(seq!['\u{8}']) == seq!['"', '\\', 'b', '"'],
        json_quoted(seq!['\u{c}']) == seq!['"', '\\', 'f', '"'],
        (c as int) < 0x20 && c != '\n' && c != '\r' && c != '\t' && c != '\u{8}' && c != '\u{c}'
            ==> json_quoted(seq![c]).len() == 8 && json_quoted(seq![c]).take(6) == seq![
            '"',
            '\\',
            'u',
            '0',
            '0',
            if (c as int) < 16 {
                '0'
            } else {
                '1'
            },
        ],
{
    lemma_quoted_one('"');
    lemma_quoted_one('\\');
    lemma_quoted_one('\n');
    lemma_quoted_one('\r');
    lemma_quoted_one('\t');
    lemma_quoted_one('\u{8}');
    lemma_quoted_one('\u{c}');
    lemma_quoted_one(c);
    assert(json_quoted(seq!['"']) =~= seq!['"', '\\', '"', '"']);
    assert(json_quoted(seq!['\\']) =~= seq!['"', '\\', '\\', '"']);
    assert(json_quoted(seq!['\n']) =~= seq!['"', '\\', 'n', '"']);
    assert(json_quoted(seq!['\r']) =~= seq!['"', '\\', 'r', '"']);
    assert(json_quoted(seq!['\t']) =~= seq!['"', '\\', 't', '"']);
    assert(json_quoted(seq!['\u{8}']) =~= seq!['"', '\\', 'b', '"']);
    assert(json_quoted(seq!['\u{c}']) =~= seq!['"', '\\', 'f', '"']);
    if (c as int) < 0x20 && c != '\n' && c != '\r' && c != '\t' && c != '\u{8}' && c != '\u{c}' {
        assert(json_quoted(seq![c]).take(6) =~= seq![
            '"',
            '\\',
            'u',
            '0',
            '0',
            if (c as int) < 16 {
                '0'
            } else {
                '1'
            },
        ]);
    }
}

proof fn lemma_quoted_one(c: char)
    ensures
        json_quoted(seq![c]) == seq!['"'] + json_escaped(c) + seq!['"'],
{
    assert(seq![c].drop_last() =~= Seq::<char>::empty());
    reveal_with_fuel(json_inner, 2);
    assert(Seq::<char>::empty() + json_escaped(c) =~= json_escaped(c));
}

/// The text of an array is its items with commas between them, in brackets; that of an object its
/// members, each with a colon between key and value, with commas between them, in braces.
pub proof fn law_compact_text(x: Seq<Json>, v: Json, m: Seq<(Seq<char>, Json)>, key: Seq<char>)
    ensures
        compact(Json::Array(Seq::empty())) == "["@ + "]"@,
        compact(Json::Array(seq![v])) == "["@ + compact(v) + "]"@,
        x.len() > 0 ==> compact(Json::Array(x.push(v))) == "["@ + (text::joined(
            compact_each(x),
            ","@,
        ) + ","@ + compact(v)) + "]"@,
        compact(Json::Object(Seq::empty())) == "{"@ + "}"@,
        compact(Json::Object(seq![(key, v)])) == "{"@ + (json_quoted(key) + ":"@ + compact(v))
            + "}"@,
        m.len() > 0 ==> compact(Json::Object(m.push((key, v)))) == "{"@ + (text::joined(
            compact_pairs(m),
            ","@,
        ) + ","@ + (json_quoted(key) + ":"@ + compact(v))) + "}"@,
{
    let none = Seq::<Json>::empty();
    let no_pairs = Seq::<(Seq<char>, Json)>::empty();
    assert(compact_each(none) =~= Seq::<Seq<char>>::empty());
    assert(compact_pairs(no_pairs) =~= Seq::<Seq<char>>::empty());
    assert("["@ + Seq::<char>::empty() + "]"@ =~= "["@ + "]"@);
    assert("{"@ + Seq::<char>::empty() + "}"@ =~= "{"@ + "}"@);
    assert(seq![v].drop_last() =~= none);
    assert(compact_each(seq![v]) =~= seq![compact(v)]);
    assert(seq![(key, v)].drop_last() =~= no_pairs);
    assert(compact_pairs(seq![(key, v)]) =~= seq![json_quoted(key) + ":"@ + compact(v)]);
    assert(x.push(v).drop_last() =~= x);
    assert(compact_each(x.push(v)).drop_last() =~= compact_each(x));
    assert(m.push((key, v)).drop_last() =~= m);
    assert(compact_pairs(m.push((key, v))).drop_last() =~= compact_pairs(m));
    lemma_each_len(x);
    lemma_pairs_len(m);
}

proof fn lemma_each_len(x: Seq<Json>)
    ensures
        compact_each(x).len() == x.len(),
    decreases x.len(),
{
    if x.len() > 0 {
        lemma_each_len(x.drop_last());
    }
}

proof fn lemma_pairs_len(m: Seq<(Seq<char>, Json)>)
    ensures
        compact_pairs(m).len() == m.len(),
    decreases m.len(),
{
    if m.len() > 0 {
        lemma_pairs_len(m.drop_last());
    }
}


/// A rounded quotient is as near as an integer can be, and it is even where two are equally near.
pub proof fn law_rounding(n: nat, unit: nat)
    requires
        unit > 0,
    ensures
        2 * (rounded(n, unit) * unit) <= 2 * n + unit,
        2 * n <= 2 * (rounded(n, unit) * unit) + unit,
        2 * (rounded(n, unit) * unit) == 2 * n + unit || 2 * n == 2 * (rounded(n, unit) * unit)
            + unit ==> rounded(n, unit) % 2 == 0,
{
    let q = n / unit;
    let r = n % unit;
    assert(n == unit * q + r && 0 <= r < unit) by (nonlinear_arith)
        requires
            q == n / unit,
            r == n % unit,
            unit > 0,
    ;
    assert((q + 1) * unit == unit * q + unit && q * unit == unit * q) by (nonlinear_arith);
}

/// An integer of no more than 53 binary digits is a double.
pub proof fn law_small_doubles(n: nat)
    requires
        n < 9_007_199_254_740_992,
    ensures
        double_value(n) == n,
{
    lemma2_to64_rest();
    lemma_bit_length_at_most(n, 53);
}


/// What has no parts is written by its own word, a number by its digits, a negative one with a sign
/// before them, and a text in quotes.
pub proof fn law_compact_leaves(b: bool, n: u64, i: i64, x: i64, t: Seq<char>, s: Seq<char>)
    ensures
        compact(Json::Null) == "null"@,
        compact(Json::Bool(true)) == "true"@,
        compact(Json::Bool(false)) == "false"@,
        compact(Json::Number(Num::PosInt(n))) == text::decimal(n as nat),
        i < 0 ==> compact(Json::Number(Num::NegInt(i))) == "-"@ + text::decimal((-i) as nat),
        i >= 0 ==> compact(Json::Number(Num::NegInt(i))) == text::decimal(i as nat),
        compact(Json::Number(Num::Float(x, t))) == t,
        compact(Json::Text(s)) == json_quoted(s),
{
}

/// A control character without a letter of its own is written by two digits of its code.
pub proof fn law_control_escapes(c: char)
    requires
        (c as int) < 0x20,
        c != '\n' && c != '\r' && c != '\t' && c != '\u{8}' && c != '\u{c}',
    ensures
        json_quoted(seq![c]).len() == 8,
        json_quoted(seq![c])[5] == utils::hex_digit(c as int / 16),
        json_quoted(seq![c])[6] == utils::hex_digit(c as int % 16),
        json_quoted(seq![c])[7] == '"',
{
    law_escapes(c);
    assert(seq![c].drop_last() =~= Seq::<char>::empty());
    reveal_with_fuel(json_inner, 2);
}

/// Messages show a value by its kind and what it holds, one part after the other.
pub proof fn law_shown_values(
    n: u64,
    s: Seq<char>,
    x: Seq<Json>,
    v: Json,
    m: Seq<(Seq<char>, Json)>,
    key: Seq<char>,
)
    ensures
        shown(Json::Null) == "Null"@,
        shown(Json::Bool(true)) == "Bool(true)"@,
        shown(Json::Bool(false)) == "Bool(false)"@,
        shown(Json::Number(Num::PosInt(n))) == "Number("@ + text::decimal(n as nat) + ")"@,
        shown(Json::Text(s)) == "String("@ + debug_quoted(s) + ")"@,
        shown(Json::Array(seq![v])) == "Array ["@ + shown(v) + "]"@,
        x.len() > 0 ==> shown(Json::Array(x.push(v))) == "Array ["@ + (text::joined(
            shown_each(x),
            ", "@,
        ) + ", "@ + shown(v)) + "]"@,
        shown(Json::Object(seq![(key, v)])) == "Object {"@ + (debug_quoted(key) + ": "@ + shown(v))
            + "}"@,
        m.len() > 0 ==> shown(Json::Object(m.push((key, v)))) == "Object {"@ + (text::joined(
            shown_pairs(m),
            ", "@,
        ) + ", "@ + (debug_quoted(key) + ": "@ + shown(v))) + "}"@,
{
    let none = Seq::<Json>::empty();
    assert(seq![v].drop_last() =~= none);
    assert(shown_each(seq![v].drop_last()) == Seq::<Seq<char>>::empty());
    assert(shown_each(seq![v]) =~= seq![shown(v)]);
    text::law_joined_in_parts(Seq::empty(), Seq::empty(), ", "@, shown(v));
    assert(x.push(v).drop_last() =~= x);
    lemma_shown_len(x);
    assert(shown_each(x.push(v)).drop_last() =~= shown_each(x));
    let one = seq![(key, v)];
    let word = debug_quoted(key) + ": "@ + shown(v);
    assert(one.drop_last() =~= Seq::<(Seq<char>, Json)>::empty());
    assert(shown_pairs(one.drop_last()) == Seq::<Seq<char>>::empty());
    assert(shown_pairs(one) =~= seq![word]);
    text::law_joined_in_parts(Seq::empty(), Seq::empty(), ", "@, word);
    assert(m.push((key, v)).drop_last() =~= m);
    lemma_shown_pairs_len(m);
    assert(shown_pairs(m.push((key, v))).drop_last() =~= shown_pairs(m));
}

proof fn lemma_shown_len(x: Seq<Json>)
    ensures
        shown_each(x).len() == x.len(),
    decreases x.len(),
{
    if x.len() > 0 {
        lemma_shown_len(x.drop_last());
    }
}

proof fn lemma_shown_pairs_len(m: Seq<(Seq<char>, Json)>)
    ensures
        shown_pairs(m).len() == m.len(),
    decreases m.len(),
{
    if m.len() > 0 {
        lemma_shown_pairs_len(m.drop_last());
    }
}

/// A value gives what it holds only to who asks for its kind: a text, a truth value, or a number
/// that is no less than zero.
pub proof fn law_what_values_hold(
    v: Value,
    s: Option<&str>,
    b: Option<bool>,
    n: Option<u64>,
    number: bool,
    key: &str,
    member_found: Option<&Value>,
)
    requires
        call_ensures(Value::as_str, (&v,), s),
        call_ensures(Value::as_bool, (&v,), b),
        call_ensures(Value::as_u64, (&v,), n),
        call_ensures(Value::is_number, (&v,), number),
        call_ensures(Value::get, (&v, key), member_found),
    ensures
        s is Some <==> v@ is Text,
        s is Some ==> (s->0)@ == v@->Text_0,
        b is Some <==> v@ is Bool,
        b is Some ==> b->0 == v@->Bool_0,
        number <==> v@ is Number,
        n is Some <==> v@ is Number && integer_of(v@->Number_0) is Some && integer_of(
            v@->Number_0,
        )->0 >= 0,
        n is Some ==> integer_of(v@->Number_0) == Some(n->0 as int),
        member_found is Some <==> member(v@, key@) is Some,
        member_found is Some ==> (*(member_found->0))@ == member(v@, key@)->0,
{
}

/// A value that is made of a text or a number holds it.
pub proof fn law_made_values(s: &str, n: u64, a: Value, b: Value)
    requires
        call_ensures(Value::from_text, (s,), a),
        call_ensures(Value::from_natural, (n,), b),
    ensures
        a@ == Json::Text(s@),
        b@ == Json::Number(Num::PosInt(n)),
{
}

} // verus!
