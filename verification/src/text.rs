//! Text as a sequence of characters: what the contracts of this crate say of strings, and the
//! operations on them that the other modules share.
use vstd::prelude::*;
use vstd::string::*;

verus! {

broadcast use vstd::string::group_string_axioms;

/// `p` stands in `s` at position `i`.
pub open spec fn occurs_at(s: Seq<char>, p: Seq<char>, i: int) -> bool {
    0 <= i && i + p.len() <= s.len() && s.subrange(i, i + p.len()) == p
}

/// `p` stands somewhere in `s`.
pub open spec fn contains_text(s: Seq<char>, p: Seq<char>) -> bool {
    exists|i: int| occurs_at(s, p, i)
}

/// The pieces of `s` between the separators `sep`: a separator ends a piece and starts an empty
/// one, any other character joins the last piece.
pub open spec fn pieces(s: Seq<char>, sep: char) -> Seq<Seq<char>>
    decreases s.len(),
{
    if s.len() == 0 {
        seq![Seq::<char>::empty()]
    } else {
        let before = pieces(s.drop_last(), sep);
        if s.last() == sep {
            before.push(Seq::empty())
        } else {
            before.update(before.len() - 1, before.last().push(s.last()))
        }
    }
}

/// The texts of `parts`, one behind the other, with `sep` between each two.
pub open spec fn joined(parts: Seq<Seq<char>>, sep: Seq<char>) -> Seq<char>
    decreases parts.len(),
{
    if parts.len() == 0 {
        Seq::empty()
    } else if parts.len() == 1 {
        parts[0]
    } else {
        joined(parts.drop_last(), sep) + sep + parts.last()
    }
}

/// The strings of `v` as sequences of characters.
pub open spec fn texts(v: Seq<String>) -> Seq<Seq<char>> {
    v.map_values(|s: String| s@)
}

/// The digit for a number below ten.
pub open spec fn digit(d: int) -> char {
    (48 + d) as char
}

/// `n` in decimal, without leading zeros.
pub open spec fn decimal(n: nat) -> Seq<char>
    decreases n,
{
    if n < 10 {
        seq![digit(n as int)]
    } else {
        decimal(n / 10).push(digit((n % 10) as int))
    }
}

/// `n` in decimal, with a minus sign where it is negative.
pub open spec fn signed_decimal(n: int) -> Seq<char> {
    if n < 0 {
        "-"@ + decimal((-n) as nat)
    } else {
        decimal(n as nat)
    }
}

/// `a` comes before `b` in the order of their code points.
pub open spec fn text_less(a: Seq<char>, b: Seq<char>) -> bool
    decreases a.len(),
{
    if b.len() == 0 {
        false
    } else if a.len() == 0 {
        true
    } else if a[0] != b[0] {
        (a[0] as int) < (b[0] as int)
    } else {
        text_less(a.skip(1), b.skip(1))
    }
}

/// Of two different texts one comes before the other.
pub proof fn lemma_text_less_total(a: Seq<char>, b: Seq<char>)
    ensures
        a != b ==> text_less(a, b) || text_less(b, a),
    decreases a.len(),
{
    if a.len() > 0 && b.len() > 0 && a[0] == b[0] {
        lemma_text_less_total(a.skip(1), b.skip(1));
        if a.skip(1) == b.skip(1) {
            assert(a =~= seq![a[0]] + a.skip(1));
            assert(b =~= seq![b[0]] + b.skip(1));
        }
    } else if a.len() == 0 && b.len() == 0 {
        assert(a =~= b);
    }
}

/// What comes before a text that comes before a third comes before the third.
pub proof fn lemma_text_less_transitive(a: Seq<char>, b: Seq<char>, c: Seq<char>)
    requires
        text_less(a, b),
        text_less(b, c),
    ensures
        text_less(a, c),
    decreases a.len(),
{
    if a.len() > 0 && b.len() > 0 && c.len() > 0 && a[0] == b[0] && b[0] == c[0] {
        lemma_text_less_transitive(a.skip(1), b.skip(1), c.skip(1));
    }
}

/// Text is always split into at least one piece.
pub proof fn lemma_pieces_nonempty(s: Seq<char>, sep: char)
    ensures
        pieces(s, sep).len() > 0,
    decreases s.len(),
{
    if s.len() > 0 {
        lemma_pieces_nonempty(s.drop_last(), sep);
    }
}

/// Appends one character to a string, by `String::push`: what was there is kept and the
/// character stands behind it.
#[verifier::external_body]
pub(crate) fn push_char(s: &mut String, c: char)
    ensures
        final(s)@ == old(s)@.push(c),
{
    s.push(c);
}

/// Whether `a` and `b` hold the same characters.
pub fn same(a: &str, b: &str) -> (r: bool)
    ensures
        r == (a@ == b@),
{
    a.to_owned() == b.to_owned()
}

/// The characters of `s`, in order.
pub fn chars_of(s: &str) -> (v: Vec<char>)
    ensures
        v@ == s@,
{
    let mut v: Vec<char> = Vec::new();
    for c in it: s.chars()
        invariant
            it.seq() == s@,
            v@ == s@.take(it.index()),
    {
        v.push(c);
        assert(s@.take(it.index() + 1) =~= s@.take(it.index()).push(c));
    }
    assert(s@.take(s@.len() as int) =~= s@);
    v
}

/// The string that holds the characters of `v` from `from` up to `to`.
pub fn string_of(v: &Vec<char>, from: usize, to: usize) -> (s: String)
    requires
        from <= to <= v@.len(),
    ensures
        s@ == v@.subrange(from as int, to as int),
{
    let mut s: String = String::new();
    for i in from..to
        invariant
            from <= to <= v@.len(),
            s@ == v@.subrange(from as int, i as int),
    {
        push_char(&mut s, v[i]);
        assert(v@.subrange(from as int, i + 1) =~= v@.subrange(from as int, i as int).push(
            v@[i as int],
        ));
    }
    s
}

/// Whether `p` stands in `s` at position `i`.
pub fn occurs(s: &Vec<char>, p: &Vec<char>, i: usize) -> (r: bool)
    ensures
        r == occurs_at(s@, p@, i as int),
{
    if p.len() > s.len() || i > s.len() - p.len() {
        return false;
    }
    for j in 0..p.len()
        invariant
            i + p.len() <= s.len(),
            forall|k: int| 0 <= k < j ==> s@[i + k] == p@[k],
    {
        if s[i + j] != p[j] {
            assert(s@.subrange(i as int, i + p@.len())[j as int] != p@[j as int]);
            return false;
        }
    }
    assert(s@.subrange(i as int, i + p@.len()) =~= p@);
    true
}

/// Whether `s` begins with `p`.
pub fn starts_with(s: &str, p: &str) -> (r: bool)
    ensures
        r == p@.is_prefix_of(s@),
{
    let cs = chars_of(s);
    let ps = chars_of(p);
    let r = occurs(&cs, &ps, 0);
    r
}

/// What follows the prefix `p` in `s`, where `s` begins with it.
pub fn strip_prefix(s: &str, p: &str) -> (r: Option<String>)
    ensures
        r is Some <==> p@.is_prefix_of(s@),
        r matches Some(rest) ==> rest@ == s@.skip(p@.len() as int),
{
    let cs = chars_of(s);
    let ps = chars_of(p);
    if occurs(&cs, &ps, 0) {
        let rest = string_of(&cs, ps.len(), cs.len());
        assert(cs@.subrange(ps@.len() as int, cs@.len() as int) =~= s@.skip(p@.len() as int));
        Some(rest)
    } else {
        None
    }
}

/// Whether `p` stands somewhere in `s`.
pub fn contains(s: &str, p: &str) -> (r: bool)
    ensures
        r == contains_text(s@, p@),
{
    let cs = chars_of(s);
    let ps = chars_of(p);
    let mut i: usize = 0;
    while i <= cs.len()
        invariant
            cs@ == s@,
            ps@ == p@,
            i <= cs@.len() + 1,
            forall|k: int| 0 <= k < i ==> !occurs_at(s@, p@, k),
        decreases cs@.len() + 1 - i,
    {
        if occurs(&cs, &ps, i) {
            return true;
        }
        if i == cs.len() {
            return false;
        }
        i = i + 1;
    }
    false
}

/// Splits `s` at every `sep`.
pub fn split(s: &str, sep: char) -> (r: Vec<String>)
    ensures
        texts(r@) == pieces(s@, sep),
        r@.len() > 0,
{
    let cs = chars_of(s);
    let mut done: Vec<String> = Vec::new();
    let mut current: String = String::new();
    assert(texts(done@).push(current@) =~= pieces(s@.take(0), sep));
    for i in 0..cs.len()
        invariant
            cs@ == s@,
            texts(done@).push(current@) == pieces(s@.take(i as int), sep),
    {
        assert(s@.take(i + 1).drop_last() =~= s@.take(i as int));
        let c = cs[i];
        if c == sep {
            let ghost before = done@;
            done.push(current);
            current = String::new();
            assert(texts(done@) =~= texts(before).push(done@.last()@));
        } else {
            let ghost was = current@;
            push_char(&mut current, c);
            assert(texts(done@).push(current@) =~= texts(done@).push(was).update(
                done@.len() as int,
                was.push(c),
            ));
        }
    }
    assert(s@.take(s@.len() as int) =~= s@);
    let ghost before = done@;
    let ghost last = current@;
    done.push(current);
    assert(texts(done@) =~= texts(before).push(last));
    done
}

/// Joins the strings of `parts` with `sep` between each two.
pub fn join(parts: &Vec<String>, sep: &str) -> (r: String)
    ensures
        r@ == joined(texts(parts@), sep@),
{
    let mut out: String = String::new();
    for i in 0..parts.len()
        invariant
            out@ == joined(texts(parts@).take(i as int), sep@),
    {
        let ghost parted = texts(parts@).take(i + 1);
        assert(parted.drop_last() =~= texts(parts@).take(i as int));
        if i > 0 {
            out.append(sep);
        }
        out.append(parts[i].as_str());
        assert(i == 0 ==> out@ =~= parts@[0]@);
    }
    assert(texts(parts@).take(parts@.len() as int) =~= texts(parts@));
    out
}

/// The digit for `d`.
pub fn digit_char(d: u64) -> (c: char)
    requires
        d < 10,
    ensures
        c == digit(d as int),
{
    (48u8 + d as u8) as char
}

/// `n` in decimal.
pub fn decimal_text(n: u64) -> (r: String)
    ensures
        r@ == decimal(n as nat),
    decreases n,
{
    let mut r = if n < 10 {
        String::new()
    } else {
        decimal_text(n / 10)
    };
    push_char(&mut r, digit_char(n % 10));
    assert(n < 10 ==> r@ =~= decimal(n as nat));
    r
}

/// `n` in decimal, with a minus sign where it is negative.
pub fn signed_text(n: i64) -> (r: String)
    ensures
        r@ == signed_decimal(n as int),
{
    if n < 0 {
        let mut r = "-".to_owned();
        let size: u64 = if n == i64::MIN {
            9223372036854775808u64
        } else {
            (-n) as u64
        };
        r.append(decimal_text(size).as_str());
        r
    } else {
        decimal_text(n as u64)
    }
}

/// Whether `a` comes before `b` in the order of their code points.
pub fn less(a: &str, b: &str) -> (r: bool)
    ensures
        r == text_less(a@, b@),
{
    let av = chars_of(a);
    let bv = chars_of(b);
    let mut i: usize = 0;
    assert(a@.skip(0) =~= a@);
    assert(b@.skip(0) =~= b@);
    while i < av.len() && i < bv.len() && av[i] == bv[i]
        invariant
            av@ == a@,
            bv@ == b@,
            i <= av@.len(),
            i <= bv@.len(),
            text_less(a@, b@) == text_less(a@.skip(i as int), b@.skip(i as int)),
        decreases av@.len() - i,
    {
        assert(a@.skip(i as int).skip(1) =~= a@.skip(i + 1));
        assert(b@.skip(i as int).skip(1) =~= b@.skip(i + 1));
        i = i + 1;
    }
    if i == bv.len() {
        false
    } else if i == av.len() {
        true
    } else {
        av[i] < bv[i]
    }
}

// ---------------------------------------------------------------------------
// Lines, words and numbers in text
// ---------------------------------------------------------------------------

/// A character with the Unicode property `White_Space`.
pub open spec fn is_space(c: char) -> bool {
    ||| 0x9 <= c as u32 <= 0xD
    ||| c as u32 == 0x20
    ||| c as u32 == 0x85
    ||| c as u32 == 0xA0
    ||| c as u32 == 0x1680
    ||| 0x2000 <= c as u32 <= 0x200A
    ||| c as u32 == 0x2028
    ||| c as u32 == 0x2029
    ||| c as u32 == 0x202F
    ||| c as u32 == 0x205F
    ||| c as u32 == 0x3000
}

/// Tells white space from other characters.
pub fn whitespace(c: char) -> (r: bool)
    ensures
        r == is_space(c),
{
    let v = c as u32;
    (0x9 <= v && v <= 0xD) || v == 0x20 || v == 0x85 || v == 0xA0 || v == 0x1680 || (0x2000 <= v
        && v <= 0x200A) || v == 0x2028 || v == 0x2029 || v == 0x202F || v == 0x205F || v == 0x3000
}

/// `s` without the white space that it begins with.
pub open spec fn trim_front(s: Seq<char>) -> Seq<char>
    decreases s.len(),
{
    if s.len() > 0 && is_space(s[0]) {
        trim_front(s.skip(1))
    } else {
        s
    }
}

/// `s` without the white space that it ends with.
pub open spec fn trim_back(s: Seq<char>) -> Seq<char>
    decreases s.len(),
{
    if s.len() > 0 && is_space(s.last()) {
        trim_back(s.drop_last())
    } else {
        s
    }
}

/// `s` without white space at either end.
pub open spec fn trimmed(s: Seq<char>) -> Seq<char> {
    trim_back(trim_front(s))
}

/// The words of `s`: its longest runs of characters that are no white space.
pub open spec fn words(s: Seq<char>) -> Seq<Seq<char>>
    decreases s.len(),
{
    if s.len() == 0 {
        Seq::empty()
    } else {
        let before = words(s.drop_last());
        if is_space(s.last()) {
            before
        } else if s.len() == 1 || is_space(s[s.len() - 2]) {
            before.push(seq![s.last()])
        } else {
            before.update(before.len() - 1, before.last().push(s.last()))
        }
    }
}

/// A line without the carriage return that it may end with.
pub open spec fn strip_return(s: Seq<char>) -> Seq<char> {
    if s.len() > 0 && s.last() == '\r' {
        s.drop_last()
    } else {
        s
    }
}

/// The lines of `s`: what stands before each line feed, without a carriage return at its end, and
/// what follows the last line feed where anything does.
pub open spec fn lines(s: Seq<char>) -> Seq<Seq<char>> {
    let p = pieces(s, '\n');
    let ended = p.drop_last().map_values(|l: Seq<char>| strip_return(l));
    if p.last().len() == 0 {
        ended
    } else {
        ended.push(p.last())
    }
}

/// The value of a digit in a radix up to sixteen.
pub open spec fn digit_value(c: char, radix: int) -> Option<int> {
    let v = if '0' <= c <= '9' {
        c as int - 48
    } else if 'a' <= c <= 'f' {
        c as int - 87
    } else if 'A' <= c <= 'F' {
        c as int - 55
    } else {
        16
    };
    if v < radix {
        Some(v)
    } else {
        None
    }
}

/// The number that the digits of `s` write in a radix.
pub open spec fn digits_value(s: Seq<char>, radix: int) -> Option<int>
    decreases s.len(),
{
    if s.len() == 0 {
        Some(0)
    } else {
        match (digits_value(s.drop_last(), radix), digit_value(s.last(), radix)) {
            (Some(v), Some(d)) => Some(v * radix + d),
            _ => None,
        }
    }
}

/// The number that `s` writes in a radix: digits, with a plus sign before them or not, that stay
/// within `max`.
pub open spec fn parsed(s: Seq<char>, radix: int, max: int) -> Option<int> {
    let digits = if s.len() > 0 && s[0] == '+' {
        s.skip(1)
    } else {
        s
    };
    if digits.len() == 0 {
        None
    } else {
        match digits_value(digits, radix) {
            Some(v) => if v <= max {
                Some(v)
            } else {
                None
            },
            None => None,
        }
    }
}

proof fn lemma_digits_value_grows(s: Seq<char>, i: int, radix: int)
    requires
        0 <= i <= s.len(),
        radix >= 1,
    ensures
        match (digits_value(s, radix), digits_value(s.take(i), radix)) {
            (Some(v), Some(p)) => 0 <= p <= v,
            (Some(_), None) => false,
            _ => true,
        },
    decreases s.len(),
{
    if s.len() == i {
        assert(s.take(i) =~= s);
        if s.len() > 0 {
            lemma_digits_value_grows(s.drop_last(), s.len() - 1, radix);
            if let Some(v) = digits_value(s.drop_last(), radix) {
                assert(v * radix >= 0) by (nonlinear_arith)
                    requires
                        v >= 0,
                        radix >= 1,
                ;
            }
        }
    } else {
        lemma_digits_value_grows(s.drop_last(), i, radix);
        assert(s.drop_last().take(i) =~= s.take(i));
        if let Some(v) = digits_value(s.drop_last(), radix) {
            assert(v * radix >= v) by (nonlinear_arith)
                requires
                    v >= 0,
                    radix >= 1,
            ;
        }
    }
}

/// `s` without white space at either end.
pub fn trim(s: &str) -> (r: String)
    ensures
        r@ == trimmed(s@),
{
    let cs = chars_of(s);
    let mut from: usize = 0;
    assert(cs@.skip(0) =~= cs@);
    while from < cs.len() && whitespace(cs[from])
        invariant
            from <= cs@.len(),
            trim_front(cs@) == trim_front(cs@.skip(from as int)),
        decreases cs@.len() - from,
    {
        assert(cs@.skip(from as int).skip(1) =~= cs@.skip(from + 1));
        from = from + 1;
    }
    let ghost front = trim_front(cs@);
    assert(front == cs@.skip(from as int));
    let mut to: usize = cs.len();
    assert(cs@.subrange(from as int, to as int) =~= front);
    while to > from && whitespace(cs[to - 1])
        invariant
            from <= to <= cs@.len(),
            trim_back(front) == trim_back(cs@.subrange(from as int, to as int)),
        decreases to,
    {
        assert(cs@.subrange(from as int, to as int).drop_last() =~= cs@.subrange(
            from as int,
            to - 1,
        ));
        to = to - 1;
    }
    string_of(&cs, from, to)
}

/// Splits `s` into its words.
pub fn split_words(s: &str) -> (r: Vec<String>)
    ensures
        texts(r@) == words(s@),
{
    let cs = chars_of(s);
    let mut done: Vec<String> = Vec::new();
    let mut current: String = String::new();
    let mut open: bool = false;
    assert(texts(done@) =~= words(s@.take(0)));
    for i in 0..cs.len()
        invariant
            cs@ == s@,
            open == (i > 0 && !is_space(s@[i - 1])),
            words(s@.take(i as int)) == (if open {
                texts(done@).push(current@)
            } else {
                texts(done@)
            }),
            !open ==> current@.len() == 0,
    {
        assert(s@.take(i + 1).drop_last() =~= s@.take(i as int));
        assert(s@.take(i + 1).last() == s@[i as int]);
        if i > 0 {
            assert(s@.take(i + 1)[i - 1] == s@[i - 1]);
        }
        let c = cs[i];
        if whitespace(c) {
            if open {
                let ghost before = done@;
                let ghost word = current@;
                done.push(current);
                assert(texts(done@) =~= texts(before).push(word));
                current = String::new();
                open = false;
            }
        } else {
            let ghost was = current@;
            push_char(&mut current, c);
            if open {
                assert(texts(done@).push(current@) =~= texts(done@).push(was).update(
                    done@.len() as int,
                    was.push(c),
                ));
            } else {
                assert(current@ =~= seq![c]);
            }
            open = true;
        }
    }
    assert(s@.take(s@.len() as int) =~= s@);
    if open {
        let ghost before = done@;
        let ghost word = current@;
        done.push(current);
        assert(texts(done@) =~= texts(before).push(word));
    }
    done
}

/// Splits `s` into its lines.
pub fn split_lines(s: &str) -> (r: Vec<String>)
    ensures
        texts(r@) == lines(s@),
{
    let all = split(s, '\n');
    let ghost p = pieces(s@, '\n');
    let mut out: Vec<String> = Vec::new();
    for i in 0..all.len() - 1
        invariant
            texts(all@) == p,
            all@.len() > 0,
            out@.len() == i,
            forall|j: int| 0 <= j < i ==> (#[trigger] out@[j])@ == strip_return(p[j]),
    {
        let cs = chars_of(all[i].as_str());
        assert(p[i as int] == all@[i as int]@);
        if cs.len() > 0 && cs[cs.len() - 1] == '\r' {
            out.push(string_of(&cs, 0, cs.len() - 1));
            assert(cs@.subrange(0, cs@.len() - 1) =~= cs@.drop_last());
        } else {
            out.push(all[i].clone());
        }
        assert(out@.last()@ == strip_return(p[i as int]));
    }
    let last = all.len() - 1;
    assert(texts(out@) =~= p.drop_last().map_values(|l: Seq<char>| strip_return(l)));
    assert(p.last() == all@[last as int]@);
    if !all[last].as_str().is_empty() {
        let ghost before = out@;
        out.push(all[last].clone());
        assert(texts(out@) =~= texts(before).push(p.last()));
    }
    out
}

/// The value of a digit.
fn value_of_digit(c: char, radix: u64) -> (r: Option<u64>)
    ensures
        match r {
            Some(d) => digit_value(c, radix as int) == Some(d as int),
            None => digit_value(c, radix as int) is None,
        },
{
    let v: u64 = if '0' <= c && c <= '9' {
        c as u64 - 48
    } else if 'a' <= c && c <= 'f' {
        c as u64 - 87
    } else if 'A' <= c && c <= 'F' {
        c as u64 - 55
    } else {
        16
    };
    if v < radix {
        Some(v)
    } else {
        None
    }
}

/// Reads a number in a radix.
pub fn parse_number(s: &str, radix: u64, max: u64) -> (r: Option<u64>)
    requires
        2 <= radix <= 16,
    ensures
        match r {
            Some(v) => parsed(s@, radix as int, max as int) == Some(v as int),
            None => parsed(s@, radix as int, max as int) is None,
        },
{
    let cs = chars_of(s);
    let start: usize = if cs.len() > 0 && cs[0] == '+' {
        1
    } else {
        0
    };
    let ghost digits = cs@.skip(start as int);
    assert(start == 0 ==> digits =~= s@);
    if start == cs.len() {
        return None;
    }
    let mut v: u64 = 0;
    assert(digits.take(0) =~= Seq::<char>::empty());
    for i in start..cs.len()
        invariant
            start <= cs@.len(),
            digits == cs@.skip(start as int),
            2 <= radix <= 16,
            v <= max,
            digits_value(digits.take(i - start), radix as int) == Some(v as int),
            parsed(s@, radix as int, max as int) == (match digits_value(digits, radix as int) {
                Some(n) => if n <= max {
                    Some(n)
                } else {
                    None
                },
                None => None,
            }),
    {
        let ghost k = i - start;
        assert(digits.take(k + 1).drop_last() =~= digits.take(k));
        assert(digits.take(k + 1).last() == cs@[i as int]);
        match value_of_digit(cs[i], radix) {
            Some(d) => {
                assert(v * radix <= 0xffff_ffff_ffff_ffff * 16) by (nonlinear_arith)
                    requires
                        v <= 0xffff_ffff_ffff_ffff,
                        radix <= 16,
                ;
                let wide: u128 = (v as u128) * (radix as u128) + (d as u128);
                if wide > max as u128 {
                    proof {
                        lemma_digits_value_grows(digits, k + 1, radix as int);
                    }
                    return None;
                }
                v = wide as u64;
            },
            None => {
                proof {
                    lemma_digits_value_grows(digits, k + 1, radix as int);
                }
                return None;
            },
        }
    }
    assert(digits.take(digits.len() as int) =~= digits);
    Some(v)
}

// ---------------------------------------------------------------------------
// Columns
// ---------------------------------------------------------------------------

/// `n` spaces.
pub open spec fn spaces(n: int) -> Seq<char> {
    Seq::new(
        if n > 0 {
            n as nat
        } else {
            0
        },
        |i: int| ' ',
    )
}

/// `s` with spaces before it, up to a width.
pub open spec fn padded_left(s: Seq<char>, width: int) -> Seq<char> {
    spaces(width - s.len()) + s
}

/// `s` with spaces behind it, up to a width.
pub open spec fn padded_right(s: Seq<char>, width: int) -> Seq<char> {
    s + spaces(width - s.len())
}

/// `n` spaces.
fn blank(n: usize) -> (r: String)
    ensures
        r@ == spaces(n as int),
{
    let mut r: String = String::new();
    for i in 0..n
        invariant
            r@ == spaces(i as int),
    {
        push_char(&mut r, ' ');
        assert(r@ =~= spaces(i + 1));
    }
    r
}

/// `s` with spaces before it, up to a width.
pub fn pad_left(s: &str, width: usize) -> (r: String)
    ensures
        r@ == padded_left(s@, width as int),
{
    let n = s.unicode_len();
    let mut r = if n < width {
        blank(width - n)
    } else {
        String::new()
    };
    assert(r@ =~= spaces(width - s@.len()));
    r.append(s);
    r
}

/// `s` with spaces behind it, up to a width.
pub fn pad_right(s: &str, width: usize) -> (r: String)
    ensures
        r@ == padded_right(s@, width as int),
{
    let n = s.unicode_len();
    let fill = if n < width {
        blank(width - n)
    } else {
        String::new()
    };
    assert(fill@ =~= spaces(width - s@.len()));
    let mut r = s.to_owned();
    r.append(fill.as_str());
    r
}

// ---------------------------------------------------------------------------
// Ends and sizes
// ---------------------------------------------------------------------------

/// The number of bytes of a text.
pub open spec fn byte_length(s: Seq<char>) -> nat {
    vstd::utf8::encode_utf8(s).len()
}

/// `s` without the characters `c` that it begins with.
pub open spec fn without_front(s: Seq<char>, c: char) -> Seq<char>
    decreases s.len(),
{
    if s.len() > 0 && s[0] == c {
        without_front(s.skip(1), c)
    } else {
        s
    }
}

/// `s` without the characters `c` that it ends with.
pub open spec fn without_back(s: Seq<char>, c: char) -> Seq<char>
    decreases s.len(),
{
    if s.len() > 0 && s.last() == c {
        without_back(s.drop_last(), c)
    } else {
        s
    }
}

/// The number of bytes of a text.
pub fn byte_len(s: &str) -> (n: usize)
    ensures
        n == byte_length(s@),
{
    s.as_bytes().len()
}

/// `s` without the white space that it begins with.
pub fn trim_start(s: &str) -> (r: String)
    ensures
        r@ == trim_front(s@),
{
    let cs = chars_of(s);
    let mut from: usize = 0;
    assert(cs@.skip(0) =~= cs@);
    while from < cs.len() && whitespace(cs[from])
        invariant
            from <= cs@.len(),
            trim_front(cs@) == trim_front(cs@.skip(from as int)),
        decreases cs@.len() - from,
    {
        assert(cs@.skip(from as int).skip(1) =~= cs@.skip(from + 1));
        from = from + 1;
    }
    assert(cs@.subrange(from as int, cs@.len() as int) =~= cs@.skip(from as int));
    string_of(&cs, from, cs.len())
}

/// `s` without the characters `c` that it begins with.
pub fn strip_front(s: &str, c: char) -> (r: String)
    ensures
        r@ == without_front(s@, c),
{
    let cs = chars_of(s);
    let mut from: usize = 0;
    assert(cs@.skip(0) =~= cs@);
    while from < cs.len() && cs[from] == c
        invariant
            from <= cs@.len(),
            without_front(cs@, c) == without_front(cs@.skip(from as int), c),
        decreases cs@.len() - from,
    {
        assert(cs@.skip(from as int).skip(1) =~= cs@.skip(from + 1));
        from = from + 1;
    }
    assert(cs@.subrange(from as int, cs@.len() as int) =~= cs@.skip(from as int));
    string_of(&cs, from, cs.len())
}

/// `s` without the characters `c` that it ends with.
pub fn strip_back(s: &str, c: char) -> (r: String)
    ensures
        r@ == without_back(s@, c),
{
    let cs = chars_of(s);
    let mut to: usize = cs.len();
    assert(cs@.take(cs@.len() as int) =~= cs@);
    while to > 0 && cs[to - 1] == c
        invariant
            to <= cs@.len(),
            without_back(cs@, c) == without_back(cs@.take(to as int), c),
        decreases to,
    {
        assert(cs@.take(to as int).drop_last() =~= cs@.take(to - 1));
        to = to - 1;
    }
    assert(cs@.subrange(0, to as int) =~= cs@.take(to as int));
    string_of(&cs, 0, to)
}

/// Whether a character is an upper-case letter.
pub uninterp spec fn is_upper(c: char) -> bool;

/// Tells upper-case letters from other characters, by `char::is_uppercase`. The result is a
/// function of the character alone and is named [`is_upper`]; of the ASCII characters it is the
/// letters from `A` to `Z`.
#[verifier::external_body]
pub(crate) fn uppercase(c: char) -> (r: bool)
    ensures
        r == is_upper(c),
        (c as u32) < 128 ==> r == ('A' <= c <= 'Z'),
{
    c.is_uppercase()
}

// ---------------------------------------------------------------------------
// Letter case
// ---------------------------------------------------------------------------

/// A text in lower case.
pub uninterp spec fn lowered(s: Seq<char>) -> Seq<char>;

/// A text in upper case.
pub uninterp spec fn raised(s: Seq<char>) -> Seq<char>;

/// An ASCII letter in lower case, and any other character as it is.
pub open spec fn ascii_lower(c: char) -> char {
    if 'A' <= c <= 'Z' {
        (c as u32 + 32) as char
    } else {
        c
    }
}

/// An ASCII letter in upper case, and any other character as it is.
pub open spec fn ascii_upper(c: char) -> char {
    if 'a' <= c <= 'z' {
        (c as u32 - 32) as char
    } else {
        c
    }
}

/// Puts a text into lower case, by `str::to_lowercase`. The result is a function of the text alone
/// and is named [`lowered`]; ASCII text is changed letter by letter.
#[verifier::external_body]
pub(crate) fn to_lower(s: &str) -> (r: String)
    ensures
        r@ == lowered(s@),
        s.is_ascii() ==> r@ == s@.map_values(|c: char| ascii_lower(c)),
{
    s.to_lowercase()
}

/// Puts a text into upper case, by `str::to_uppercase`. The result is a function of the text alone
/// and is named [`raised`]; ASCII text is changed letter by letter.
#[verifier::external_body]
pub(crate) fn to_upper(s: &str) -> (r: String)
    ensures
        r@ == raised(s@),
        s.is_ascii() ==> r@ == s@.map_values(|c: char| ascii_upper(c)),
{
    s.to_uppercase()
}

/// The text that an option holds, or another.
pub open spec fn text_or(o: Option<String>, other: Seq<char>) -> Seq<char> {
    match o {
        Some(s) => s@,
        None => other,
    }
}

/// The text that an option holds, or another.
pub fn or_text(o: &Option<String>, other: &str) -> (r: String)
    ensures
        r@ == text_or(*o, other@),
{
    match o {
        Some(s) => s.clone(),
        None => other.to_owned(),
    }
}

/// Whether one of the strings of `v` is `s`.
pub fn holds_text(v: &Vec<String>, s: &str) -> (r: bool)
    ensures
        r == texts(v@).contains(s@),
{
    for i in 0..v.len()
        invariant
            forall|j: int| 0 <= j < i ==> (#[trigger] texts(v@)[j]) != s@,
    {
        assert(texts(v@)[i as int] == v@[i as int]@);
        if same(v[i].as_str(), s) {
            return true;
        }
    }
    false
}

/// Two texts are the same but for the case of their ASCII letters.
pub open spec fn same_folded(a: Seq<char>, b: Seq<char>) -> bool {
    a.map_values(|c: char| ascii_lower(c)) == b.map_values(|c: char| ascii_lower(c))
}

fn fold(c: char) -> (r: char)
    ensures
        r == ascii_lower(c),
{
    if 'A' <= c && c <= 'Z' {
        (c as u8 + 32) as char
    } else {
        c
    }
}

/// Whether two texts are the same but for the case of their ASCII letters.
pub fn equal_folded(a: &str, b: &str) -> (r: bool)
    ensures
        r == same_folded(a@, b@),
{
    let av = chars_of(a);
    let bv = chars_of(b);
    let ghost fa = a@.map_values(|c: char| ascii_lower(c));
    let ghost fb = b@.map_values(|c: char| ascii_lower(c));
    if av.len() != bv.len() {
        assert(fa.len() != fb.len());
        return false;
    }
    for i in 0..av.len()
        invariant
            av@ == a@,
            bv@ == b@,
            av@.len() == bv@.len(),
            fa == a@.map_values(|c: char| ascii_lower(c)),
            fb == b@.map_values(|c: char| ascii_lower(c)),
            forall|j: int| 0 <= j < i ==> #[trigger] fa[j] == fb[j],
    {
        if fold(av[i]) != fold(bv[i]) {
            assert(fa[i as int] != fb[i as int]);
            return false;
        }
        assert(fa[i as int] == fb[i as int]);
    }
    assert(fa =~= fb);
    true
}

// ---------------------------------------------------------------------------
// Cutting by bytes
// ---------------------------------------------------------------------------

/// The longest beginning of `s` that takes at most `n` bytes.
pub open spec fn within(s: Seq<char>, n: nat) -> Seq<char>
    decreases s.len(),
{
    if s.len() == 0 || byte_length(s) <= n {
        s
    } else {
        within(s.drop_last(), n)
    }
}

/// The bytes of two texts in a row are those of the one and those of the other.
pub proof fn lemma_bytes_of_sum(a: Seq<char>, b: Seq<char>)
    ensures
        vstd::utf8::encode_utf8(a + b) == vstd::utf8::encode_utf8(a) + vstd::utf8::encode_utf8(b),
    decreases a.len(),
{
    if a.len() == 0 {
        assert(a + b =~= b);
        assert(vstd::utf8::encode_utf8(a) + vstd::utf8::encode_utf8(b) =~= vstd::utf8::encode_utf8(
            b,
        ));
    } else {
        assert((a + b).drop_first() =~= a.drop_first() + b);
        lemma_bytes_of_sum(a.drop_first(), b);
        assert(vstd::utf8::encode_scalar(a[0] as u32) + (vstd::utf8::encode_utf8(a.drop_first())
            + vstd::utf8::encode_utf8(b)) =~= (vstd::utf8::encode_scalar(a[0] as u32)
            + vstd::utf8::encode_utf8(a.drop_first())) + vstd::utf8::encode_utf8(b));
    }
}

/// The number of bytes of a character.
pub open spec fn width(c: char) -> nat {
    vstd::utf8::encode_scalar(c as u32).len()
}

/// A beginning that is longer by a character takes as many more bytes as that character.
pub proof fn lemma_bytes_grow(s: Seq<char>, i: int)
    requires
        0 <= i < s.len(),
    ensures
        byte_length(s.take(i + 1)) == byte_length(s.take(i)) + width(s[i]),
        1 <= width(s[i]) <= 4,
{
    let one = seq![s[i]];
    assert(s.take(i + 1) =~= s.take(i) + one);
    lemma_bytes_of_sum(s.take(i), one);
    assert(one.drop_first() =~= Seq::<char>::empty());
    assert(vstd::utf8::encode_utf8(one) =~= vstd::utf8::encode_scalar(s[i] as u32)) by {
        reveal_with_fuel(vstd::utf8::encode_utf8, 2);
    }
}

/// A shorter beginning takes no more bytes.
pub proof fn lemma_bytes_monotone(s: Seq<char>, i: int, j: int)
    requires
        0 <= i <= j <= s.len(),
    ensures
        byte_length(s.take(i)) <= byte_length(s.take(j)),
    decreases j - i,
{
    if i < j {
        lemma_bytes_monotone(s, i, j - 1);
        lemma_bytes_grow(s, j - 1);
    }
}

proof fn lemma_within_is(s: Seq<char>, n: nat, k: int)
    requires
        0 <= k <= s.len(),
        byte_length(s.take(k)) <= n,
        k < s.len() ==> byte_length(s.take(k + 1)) > n,
    ensures
        within(s, n) == s.take(k),
    decreases s.len(),
{
    if k == s.len() {
        assert(s.take(k) =~= s);
    } else {
        lemma_bytes_monotone(s, k + 1, s.len() as int);
        assert(s.take(s.len() as int) =~= s);
        let shorter = s.drop_last();
        assert(shorter.take(k) =~= s.take(k));
        if k < shorter.len() {
            assert(shorter.take(k + 1) =~= s.take(k + 1));
        }
        lemma_within_is(shorter, n, k);
    }
}

/// What is left of a text takes no more bytes than the text.
pub proof fn lemma_within_shorter(s: Seq<char>, n: nat)
    ensures
        byte_length(within(s, n)) <= byte_length(s),
    decreases s.len(),
{
    if s.len() > 0 && byte_length(s) > n {
        lemma_within_shorter(s.drop_last(), n);
        assert(s.drop_last() =~= s.take(s.len() - 1));
        lemma_bytes_monotone(s, s.len() - 1, s.len() as int);
        assert(s.take(s.len() as int) =~= s);
    }
}

fn width_of(c: char) -> (r: usize)
    ensures
        r == width(c),
        1 <= r <= 4,
{
    let v = c as u32;
    if v <= 0x7F {
        1
    } else if v <= 0x7FF {
        2
    } else if v <= 0xFFFF {
        3
    } else {
        4
    }
}

/// The longest beginning of `s` that takes at most `n` bytes.
pub fn cut(s: &str, n: usize) -> (r: String)
    ensures
        r@ == within(s@, n as nat),
{
    if byte_len(s) <= n {
        return s.to_owned();
    }
    let cs = chars_of(s);
    let mut used: usize = 0;
    let mut k: usize = 0;
    assert(cs@.take(0) =~= Seq::<char>::empty());
    while k < cs.len() && width_of(cs[k]) <= n - used
        invariant
            cs@ == s@,
            k <= cs@.len(),
            used <= n,
            used == byte_length(s@.take(k as int)),
        decreases cs@.len() - k,
    {
        proof {
            lemma_bytes_grow(s@, k as int);
        }
        used = used + width_of(cs[k]);
        k = k + 1;
    }
    proof {
        if k < s@.len() {
            lemma_bytes_grow(s@, k as int);
        }
        lemma_within_is(s@, n as nat, k as int);
        assert(cs@.subrange(0, k as int) =~= s@.take(k as int));
    }
    string_of(&cs, 0, k)
}

// ---------------------------------------------------------------------------
// ASCII case and endings
// ---------------------------------------------------------------------------

/// A text with its ASCII letters in lower case.
pub open spec fn folded(s: Seq<char>) -> Seq<char> {
    s.map_values(|c: char| ascii_lower(c))
}

/// A text with its ASCII letters in upper case.
pub open spec fn capitals(s: Seq<char>) -> Seq<char> {
    s.map_values(|c: char| ascii_upper(c))
}

/// A text with its ASCII letters in lower case.
pub fn lower_ascii(s: &str) -> (r: String)
    ensures
        r@ == folded(s@),
{
    let cs = chars_of(s);
    let mut r: String = String::new();
    for i in 0..cs.len()
        invariant
            cs@ == s@,
            r@ == folded(s@.take(i as int)),
    {
        push_char(&mut r, fold(cs[i]));
        assert(folded(s@.take(i + 1)) =~= folded(s@.take(i as int)).push(ascii_lower(s@[i as int])));
    }
    assert(s@.take(s@.len() as int) =~= s@);
    r
}

fn raise(c: char) -> (r: char)
    ensures
        r == ascii_upper(c),
{
    if 'a' <= c && c <= 'z' {
        (c as u8 - 32) as char
    } else {
        c
    }
}

/// A text with its ASCII letters in upper case.
pub fn upper_ascii(s: &str) -> (r: String)
    ensures
        r@ == capitals(s@),
{
    let cs = chars_of(s);
    let mut r: String = String::new();
    for i in 0..cs.len()
        invariant
            cs@ == s@,
            r@ == capitals(s@.take(i as int)),
    {
        push_char(&mut r, raise(cs[i]));
        assert(capitals(s@.take(i + 1)) =~= capitals(s@.take(i as int)).push(
            ascii_upper(s@[i as int]),
        ));
    }
    assert(s@.take(s@.len() as int) =~= s@);
    r
}

/// `s` ends in `p`.
pub open spec fn ends_in(s: Seq<char>, p: Seq<char>) -> bool {
    p.len() <= s.len() && s.skip(s.len() - p.len()) == p
}

/// Whether `s` ends in `p`.
pub fn ends_with(s: &str, p: &str) -> (r: bool)
    ensures
        r == ends_in(s@, p@),
{
    let sv = chars_of(s);
    let pv = chars_of(p);
    if pv.len() > sv.len() {
        return false;
    }
    let from = sv.len() - pv.len();
    let r = occurs(&sv, &pv, from);
    assert(s@.skip(from as int) =~= s@.subrange(from as int, s@.len() as int));
    r
}

// ---------------------------------------------------------------------------
// Numbers read back
// ---------------------------------------------------------------------------

proof fn lemma_decimal_digits(n: nat)
    ensures
        decimal(n).len() > 0,
        decimal(n)[0] != '+',
        digits_value(decimal(n), 10) == Some(n as int),
    decreases n,
{
    reveal_with_fuel(digits_value, 2);
    if n < 10 {
        assert(seq![digit(n as int)].drop_last() =~= Seq::<char>::empty());
    } else {
        lemma_decimal_digits(n / 10);
        let front = decimal(n / 10);
        assert(decimal(n).drop_last() =~= front);
    }
}

proof fn lemma_decimal_ends(n: nat)
    ensures
        decimal(n).len() > 0,
        '0' <= decimal(n)[0] <= '9',
        '0' <= decimal(n).last() <= '9',
    decreases n,
{
    if n >= 10 {
        lemma_decimal_ends(n / 10);
    }
}

/// A number in decimal has no white space at its ends.
pub proof fn lemma_decimal_is_trimmed(n: nat)
    ensures
        trimmed(decimal(n)) == decimal(n),
{
    lemma_decimal_ends(n);
}

/// A number that is written down in decimal is read back.
pub proof fn lemma_decimal_reads_back(n: nat, max: int)
    requires
        n <= max,
    ensures
        parsed(decimal(n), 10, max) == Some(n as int),
{
    lemma_decimal_digits(n);
}

/// Copies texts.
pub fn copy_texts(v: &Vec<String>) -> (r: Vec<String>)
    ensures
        texts(r@) == texts(v@),
{
    let mut r: Vec<String> = Vec::new();
    for i in 0..v.len()
        invariant
            r@.len() == i,
            forall|j: int| 0 <= j < i ==> (#[trigger] r@[j])@ == v@[j]@,
    {
        r.push(v[i].clone());
    }
    assert(texts(r@) =~= texts(v@));
    r
}

/// Some of the first digits write a number above `max`.
pub open spec fn overflows(digits: Seq<char>, max: int) -> bool {
    exists|k: int|
        0 <= k <= digits.len() && (digits_value(#[trigger] digits.take(k), 10) matches Some(v) && v
            > max)
}

/// What is wrong with a text that writes no decimal number up to `max`.
pub open spec fn fault(s: Seq<char>, max: int) -> Seq<char> {
    if s.len() == 0 {
        "cannot parse integer from empty string"@
    } else if overflows(
        if s[0] == '+' {
            s.skip(1)
        } else {
            s
        },
        max,
    ) {
        "number too large to fit in target type"@
    } else {
        "invalid digit found in string"@
    }
}

proof fn lemma_no_value_beyond(s: Seq<char>, i: int, j: int)
    requires
        0 <= i <= j <= s.len(),
        digits_value(s.take(i), 10) is None,
    ensures
        digits_value(s.take(j), 10) is None,
    decreases j - i,
{
    if i < j {
        lemma_no_value_beyond(s, i, j - 1);
        assert(s.take(j).drop_last() =~= s.take(j - 1));
    }
}

/// What is wrong with a text that writes no decimal number up to `max`.
pub fn number_fault(s: &str, max: u64) -> (r: &'static str)
    ensures
        r@ == fault(s@, max as int),
{
    let cs = chars_of(s);
    if cs.len() == 0 {
        return "cannot parse integer from empty string";
    }
    let start: usize = if cs[0] == '+' {
        1
    } else {
        0
    };
    let ghost digits = if s@[0] == '+' {
        s@.skip(1)
    } else {
        s@
    };
    assert(digits =~= cs@.skip(start as int));
    let mut v: u128 = 0;
    let mut i: usize = start;
    assert(digits.take(0) =~= Seq::<char>::empty());
    while i < cs.len()
        invariant
            cs@ == s@,
            s@.len() > 0,
            start <= i <= cs@.len(),
            digits == (if s@[0] == '+' {
                s@.skip(1)
            } else {
                s@
            }),
            digits =~= cs@.skip(start as int),
            v <= max,
            digits_value(digits.take(i - start), 10) == Some(v as int),
            forall|k: int|
                0 <= k <= i - start ==> (digits_value(#[trigger] digits.take(k), 10) matches Some(w)
                    ==> w <= max),
        decreases cs@.len() - i,
    {
        proof {
            assert(digits.take(i - start + 1).drop_last() =~= digits.take(i - start));
            assert(digits[i - start] == cs@[i as int]);
        }
        match value_of_digit(cs[i], 10) {
            None => {
                assert forall|k: int| 0 <= k <= digits.len() implies (digits_value(
                    #[trigger] digits.take(k),
                    10,
                ) matches Some(w) ==> w <= max) by {
                    if k > i - start {
                        lemma_no_value_beyond(digits, i - start + 1, k);
                    }
                }
                return "invalid digit found in string";
            },
            Some(d) => {
                let next = v * 10 + d as u128;
                if next > max as u128 {
                    assert(digits_value(digits.take(i - start + 1), 10) == Some(next as int));
                    assert(overflows(digits, max as int));
                    return "number too large to fit in target type";
                }
                v = next;
            },
        }
        i = i + 1;
    }
    "invalid digit found in string"
}

// ---------------------------------------------------------------------------
// What holds of texts
// ---------------------------------------------------------------------------

/// A text is found in another exactly where some stretch of the other is that text. So it is found
/// whatever stands before it and behind it.
pub proof fn law_found_anywhere(a: Seq<char>, b: Seq<char>, before: Seq<char>, behind: Seq<char>)
    ensures
        contains_text(a, b) <==> exists|i: int|
            0 <= i <= a.len() - b.len() && #[trigger] a.subrange(i, i + b.len()) == b,
        contains_text(before + b + behind, b),
{
    if contains_text(a, b) {
        let i = choose|i: int| occurs_at(a, b, i);
        assert(a.subrange(i, i + b.len()) == b);
    }
    if exists|i: int| 0 <= i <= a.len() - b.len() && #[trigger] a.subrange(i, i + b.len()) == b {
        let i = choose|i: int|
            0 <= i <= a.len() - b.len() && #[trigger] a.subrange(i, i + b.len()) == b;
        assert(occurs_at(a, b, i));
    }
    let all = before + b + behind;
    assert(all.subrange(before.len() as int, (before.len() + b.len()) as int) =~= b);
    assert(occurs_at(all, b, before.len() as int));
}

/// A text ends in another exactly where the other stands at its end.
pub proof fn law_found_at_end(a: Seq<char>, b: Seq<char>)
    ensures
        ends_in(a, b) <==> exists|front: Seq<char>| a == #[trigger] (front + b),
{
    if ends_in(a, b) {
        let front = a.take(a.len() - b.len());
        assert(a =~= front + b);
    }
    if exists|front: Seq<char>| a == #[trigger] (front + b) {
        let front = choose|front: Seq<char>| a == #[trigger] (front + b);
        assert(a.skip(a.len() - b.len()) =~= b);
    }
}

/// Joining texts in two parts and then the parts gives the same, and one text stands as it is.
pub proof fn law_joined_in_parts(a: Seq<Seq<char>>, b: Seq<Seq<char>>, sep: Seq<char>, one: Seq<char>)
    ensures
        joined(seq![one], sep) == one,
        a.len() > 0 && b.len() > 0 ==> joined(a + b, sep) == joined(a, sep) + sep + joined(b, sep),
    decreases b.len(),
{
    if a.len() > 0 && b.len() > 0 {
        if b.len() == 1 {
            assert((a + b).drop_last() =~= a);
        } else {
            law_joined_in_parts(a, b.drop_last(), sep, one);
            assert((a + b).drop_last() =~= a + b.drop_last());
            assert(joined(a, sep) + sep + (joined(b.drop_last(), sep) + sep + b.last())
                =~= joined(a, sep) + sep + joined(b.drop_last(), sep) + sep + b.last());
        }
    }
}

/// The pieces of a text hold no separator, and joined by it they are the text.
pub proof fn law_pieces_make_the_text(s: Seq<char>, sep: char)
    ensures
        pieces(s, sep).len() > 0,
        joined(pieces(s, sep), seq![sep]) == s,
        forall|k: int, i: int|
            0 <= k < pieces(s, sep).len() && 0 <= i < pieces(s, sep)[k].len()
                ==> #[trigger] pieces(s, sep)[k][i] != sep,
    decreases s.len(),
{
    if s.len() > 0 {
        let rest = s.drop_last();
        let before = pieces(rest, sep);
        let all = pieces(s, sep);
        law_pieces_make_the_text(rest, sep);
        assert(rest.push(s.last()) =~= s);
        if s.last() == sep {
            assert(all.drop_last() =~= before);
            assert(joined(all, seq![sep]) =~= s);
        } else {
            let longer = before.last().push(s.last());
            assert(all.drop_last() =~= before.drop_last());
            assert(all.last() == longer);
            if all.len() == 1 {
                assert(all[0] == longer && before[0] == before.last());
                assert(joined(all, seq![sep]) =~= s);
            } else {
                assert(joined(all, seq![sep]) =~= s);
            }
            assert forall|k: int, i: int|
                0 <= k < all.len() && 0 <= i < all[k].len() implies #[trigger] all[k][i] != sep by {
                if k == all.len() - 1 {
                    if i < before.last().len() {
                        assert(before[k][i] != sep);
                    }
                } else {
                    assert(all[k] == before[k]);
                    assert(before[k][i] != sep);
                }
            }
        }
    }
}

/// White space alone.
pub open spec fn blank_text(s: Seq<char>) -> bool {
    forall|i: int| 0 <= i < s.len() ==> is_space(#[trigger] s[i])
}

/// White space is what Unicode lists as such, and nothing else.
pub proof fn law_white_space(c: char)
    ensures
        is_space(c) <==> c == '\t' || c == '\n' || c == '\u{b}' || c == '\u{c}' || c == '\r' || c
            == ' ' || c == '\u{85}' || c == '\u{a0}' || c == '\u{1680}' || c == '\u{2000}' || c
            == '\u{2001}' || c == '\u{2002}' || c == '\u{2003}' || c == '\u{2004}' || c
            == '\u{2005}' || c == '\u{2006}' || c == '\u{2007}' || c == '\u{2008}' || c
            == '\u{2009}' || c == '\u{200a}' || c == '\u{2028}' || c == '\u{2029}' || c
            == '\u{202f}' || c == '\u{205f}' || c == '\u{3000}',
{
}

proof fn lemma_trim_front_leaves(s: Seq<char>)
    ensures
        trim_front(s).len() <= s.len(),
        trim_front(s) == s.skip(s.len() - trim_front(s).len()),
        blank_text(s.take(s.len() - trim_front(s).len())),
        trim_front(s).len() > 0 ==> !is_space(trim_front(s)[0]),
    decreases s.len(),
{
    if s.len() > 0 && is_space(s[0]) {
        let rest = s.skip(1);
        lemma_trim_front_leaves(rest);
        let n = trim_front(s).len() as int;
        assert(rest.skip(rest.len() - n) =~= s.skip(s.len() - n));
        assert forall|i: int| 0 <= i < s.len() - n implies is_space(
            #[trigger] s.take(s.len() - n)[i],
        ) by {
            if i > 0 {
                assert(rest.take(rest.len() - n)[i - 1] == s[i]);
            }
        }
    } else {
        assert(s.skip(0) =~= s);
    }
}

proof fn lemma_trim_back_leaves(s: Seq<char>)
    ensures
        trim_back(s).len() <= s.len(),
        trim_back(s) == s.take(trim_back(s).len() as int),
        blank_text(s.skip(trim_back(s).len() as int)),
        trim_back(s).len() > 0 ==> !is_space(trim_back(s).last()),
    decreases s.len(),
{
    if s.len() > 0 && is_space(s.last()) {
        let rest = s.drop_last();
        lemma_trim_back_leaves(rest);
        let n = trim_back(s).len() as int;
        assert(rest.take(n) =~= s.take(n));
        assert forall|i: int| 0 <= i < s.len() - n implies is_space(#[trigger] s.skip(n)[i]) by {
            if i < rest.len() - n {
                assert(rest.skip(n)[i] == s[n + i]);
            }
        }
    } else {
        assert(s.take(s.len() as int) =~= s);
    }
}

/// Trimming takes away the white space at both ends of a text, all of it and nothing else.
pub proof fn law_trimming(s: Seq<char>)
    ensures
        exists|i: int, j: int|
            #![trigger s.subrange(i, j)]
            0 <= i <= j <= s.len() && trimmed(s) == s.subrange(i, j) && blank_text(s.take(i))
                && blank_text(s.skip(j)),
        trimmed(s).len() > 0 ==> !is_space(trimmed(s)[0]) && !is_space(
            trimmed(s)[trimmed(s).len() - 1],
        ),
{
    let front = trim_front(s);
    lemma_trim_front_leaves(s);
    lemma_trim_back_leaves(front);
    let i = s.len() - front.len();
    let n = trimmed(s).len() as int;
    let j = i + n;
    assert(s.subrange(i, j) =~= front.take(n));
    assert forall|k: int| 0 <= k < s.skip(j).len() implies is_space(#[trigger] s.skip(j)[k]) by {
        assert(s.skip(j)[k] == front.skip(n)[k]);
    }
}

/// A word that stands between white space is a word of the text, and nothing else is: words hold no
/// white space, none is empty, and the words of two texts with white space between them are those of
/// the one and those of the other.
pub proof fn law_words(a: Seq<char>, space: char, b: Seq<char>)
    requires
        is_space(space),
    ensures
        words(a.push(space) + b) == words(a) + words(b),
        b.len() > 0 && (forall|i: int| 0 <= i < b.len() ==> !is_space(#[trigger] b[i])) ==> words(b)
            == seq![b],
    decreases b.len(),
{
    let all = a.push(space) + b;
    if b.len() == 0 {
        assert(all =~= a.push(space));
        assert(all.drop_last() =~= a);
        assert(words(a) + words(b) =~= words(a));
    } else {
        let rest = b.drop_last();
        law_words(a, space, rest);
        assert(all.drop_last() =~= a.push(space) + rest);
        assert(all.last() == b.last());
        lemma_words_last(rest);
        if !is_space(b.last()) {
            assert(all[all.len() - 2] == (if b.len() == 1 {
                space
            } else {
                b[b.len() - 2]
            }));
            if b.len() == 1 || is_space(b[b.len() - 2]) {
                assert(words(all) =~= words(a) + words(b));
            } else {
                assert(words(rest).len() > 0);
                assert(words(all) =~= words(a) + words(b));
            }
        }
        if forall|i: int| 0 <= i < b.len() ==> !is_space(#[trigger] b[i]) {
            assert forall|i: int| 0 <= i < rest.len() implies !is_space(#[trigger] rest[i]) by {
                assert(rest[i] == b[i]);
            }
            assert(!is_space(b[b.len() - 1]));
            if b.len() > 1 {
                assert(!is_space(b[b.len() - 2]));
                assert(words(rest) == seq![rest]);
                assert(rest.push(b.last()) =~= b);
            } else {
                assert(seq![b.last()] =~= b);
                assert(words(rest) =~= Seq::<Seq<char>>::empty());
            }
            assert(words(b) =~= seq![b]);
        }
    }
}

proof fn lemma_words_last(s: Seq<char>)
    ensures
        s.len() > 0 && !is_space(s.last()) ==> words(s).len() > 0,
    decreases s.len(),
{
    if s.len() > 0 && !is_space(s.last()) && s.len() > 1 && !is_space(s[s.len() - 2]) {
        lemma_words_last(s.drop_last());
        assert(s.drop_last().last() == s[s.len() - 2]);
    }
}

/// The lines of a text are what stands before its line feeds, and what stands behind the last one
/// where that is anything. A line that a line feed ends loses one carriage return at its end.
pub proof fn law_lines(a: Seq<char>, b: Seq<char>)
    requires
        forall|i: int| 0 <= i < a.len() ==> #[trigger] a[i] != '\n',
    ensures
        lines(a.push('\n') + b) == seq![
            if a.len() > 0 && a[a.len() - 1] == '\r' {
                a.take(a.len() - 1)
            } else {
                a
            },
        ] + lines(b),
        lines(a) == (if a.len() == 0 {
            Seq::empty()
        } else {
            seq![a]
        }),
{
    lemma_pieces_of_one(a, '\n');
    lemma_pieces_behind(a, '\n', b);
    lemma_pieces_nonempty(b, '\n');
    let p = pieces(b, '\n');
    let q = pieces(a.push('\n') + b, '\n');
    assert(q =~= seq![a] + p);
    assert(q.last() == p.last());
    assert(q.drop_last() =~= seq![a] + p.drop_last());
    if a.len() > 0 && a[a.len() - 1] == '\r' {
        assert(a.drop_last() =~= a.take(a.len() - 1));
    }
    assert(lines(a.push('\n') + b) =~= seq![strip_return(a)] + lines(b));
    assert(seq![a].drop_last() =~= Seq::<Seq<char>>::empty());
    assert(lines(a) =~= (if a.len() == 0 {
        Seq::empty()
    } else {
        seq![a]
    }));
}

/// A text without a separator is its own piece.
pub proof fn lemma_pieces_of_one(a: Seq<char>, sep: char)
    requires
        forall|i: int| 0 <= i < a.len() ==> #[trigger] a[i] != sep,
    ensures
        pieces(a, sep) == seq![a],
    decreases a.len(),
{
    if a.len() > 0 {
        let rest = a.drop_last();
        assert forall|i: int| 0 <= i < rest.len() implies #[trigger] rest[i] != sep by {
            assert(rest[i] == a[i]);
        }
        lemma_pieces_of_one(rest, sep);
        assert(a[a.len() - 1] != sep);
        assert(rest.push(a.last()) =~= a);
        assert(pieces(a, sep) =~= seq![a]);
    } else {
        assert(a =~= Seq::<char>::empty());
    }
}

/// The pieces behind the first separator are those of what stands behind it.
pub proof fn lemma_pieces_behind(a: Seq<char>, sep: char, b: Seq<char>)
    requires
        forall|i: int| 0 <= i < a.len() ==> #[trigger] a[i] != sep,
    ensures
        pieces(a.push(sep) + b, sep) == seq![a] + pieces(b, sep),
    decreases b.len(),
{
    let all = a.push(sep) + b;
    if b.len() == 0 {
        assert(all =~= a.push(sep));
        assert(all.drop_last() =~= a);
        lemma_pieces_of_one(a, sep);
        assert(pieces(all, sep) =~= seq![a] + pieces(b, sep));
    } else {
        let rest = b.drop_last();
        lemma_pieces_behind(a, sep, rest);
        lemma_pieces_nonempty(rest, sep);
        assert(all.drop_last() =~= a.push(sep) + rest);
        assert(all.last() == b.last());
        assert(pieces(all, sep) =~= seq![a] + pieces(b, sep));
    }
}

/// A text is cut to the longest beginning that fits: it is a beginning, it fits, and a longer one
/// would not.
pub proof fn law_cut_to_fit(s: Seq<char>, n: nat, k: int)
    ensures
        within(s, n).len() <= s.len(),
        within(s, n) == s.take(within(s, n).len() as int),
        byte_length(within(s, n)) <= n,
        within(s, n).len() < k <= s.len() ==> byte_length(s.take(k)) > n,
    decreases s.len(),
{
    if s.len() == 0 || byte_length(s) <= n {
        assert(s.take(s.len() as int) =~= s);
        if s.len() == 0 {
            assert(s =~= Seq::<char>::empty());
        }
    } else {
        let rest = s.drop_last();
        law_cut_to_fit(rest, n, k);
        let m = within(s, n).len() as int;
        assert(rest.take(m) =~= s.take(m));
        if m < k <= s.len() {
            if k == s.len() {
                assert(s.take(k) =~= s);
            } else {
                assert(rest.take(k) =~= s.take(k));
            }
        }
    }
}

/// A text of plain characters takes as many bytes as it has characters.
pub proof fn law_plain_bytes(s: Seq<char>)
    requires
        forall|i: int| 0 <= i < s.len() ==> (#[trigger] s[i] as u32) < 128,
    ensures
        byte_length(s) == s.len(),
    decreases s.len(),
{
    if s.len() > 0 {
        let rest = s.drop_last();
        assert forall|i: int| 0 <= i < rest.len() implies (#[trigger] rest[i] as u32) < 128 by {
            assert(rest[i] == s[i]);
        }
        law_plain_bytes(rest);
        lemma_bytes_grow(s, s.len() - 1);
        assert(s.take(s.len() as int) =~= s);
        assert(s.take(s.len() - 1) =~= rest);
        assert((s[s.len() - 1] as u32) < 128);
    } else {
        assert(s =~= Seq::<char>::empty());
    }
}

/// Texts are ordered by the first character in which they differ, and a beginning comes before the
/// whole.
pub proof fn law_first_difference_orders(
    p: Seq<char>,
    x: char,
    a: Seq<char>,
    y: char,
    b: Seq<char>,
)
    ensures
        x != y ==> (text_less(p.push(x) + a, p.push(y) + b) <==> (x as u32) < (y as u32)),
        text_less(p, p.push(x) + a),
        !text_less(p, p),
        !text_less(p.push(x) + a, p),
    decreases p.len(),
{
    let s = p.push(x) + a;
    let t = p.push(y) + b;
    if p.len() > 0 {
        let q = p.skip(1);
        law_first_difference_orders(q, x, a, y, b);
        assert(s.skip(1) =~= q.push(x) + a);
        assert(t.skip(1) =~= q.push(y) + b);
        assert(s[0] == p[0] && t[0] == p[0]);
    } else {
        assert(s[0] == x && t[0] == y);
    }
}

/// A text is padded to a width with spaces on one side, and never shortened.
pub proof fn law_padding(s: Seq<char>, width: int)
    ensures
        padded_left(s, width).len() == (if width > s.len() {
            width
        } else {
            s.len() as int
        }),
        padded_left(s, width).skip(padded_left(s, width).len() - s.len()) == s,
        forall|i: int|
            0 <= i < padded_left(s, width).len() - s.len() ==> #[trigger] padded_left(s, width)[i]
                == ' ',
        padded_right(s, width).len() == padded_left(s, width).len(),
        padded_right(s, width).take(s.len() as int) == s,
        forall|i: int|
            s.len() <= i < padded_right(s, width).len() ==> #[trigger] padded_right(s, width)[i]
                == ' ',
{
    let l = padded_left(s, width);
    assert(l.skip(l.len() - s.len()) =~= s);
    assert(padded_right(s, width).take(s.len() as int) =~= s);
}

/// Folding and raising change the case of the letters of ASCII alone: each other character, and each
/// letter that has the case already, stands as it is, and the two undo one another.
pub proof fn law_ascii_case(c: char)
    ensures
        'a' <= c <= 'z' ==> ascii_lower(c) == c && (ascii_upper(c) as u32) + 32 == c as u32,
        'A' <= c <= 'Z' ==> ascii_upper(c) == c && (ascii_lower(c) as u32) == c as u32 + 32,
        !('a' <= c <= 'z') && !('A' <= c <= 'Z') ==> ascii_lower(c) == c && ascii_upper(c) == c,
        'a' <= c <= 'z' ==> ascii_lower(ascii_upper(c)) == c,
        'A' <= c <= 'Z' ==> ascii_upper(ascii_lower(c)) == c,
        folded(seq![c]) == seq![ascii_lower(c)],
        capitals(seq![c]) == seq![ascii_upper(c)],
{
    assert(folded(seq![c]) =~= seq![ascii_lower(c)]);
    assert(capitals(seq![c]) =~= seq![ascii_upper(c)]);
}

/// A number is written by its digits alone, without leading zeros, the last of them its remainder by
/// ten, and it is read back; a plus sign before it is passed over.
pub proof fn law_decimal(n: nat, max: int)
    ensures
        forall|i: int| 0 <= i < decimal(n).len() ==> '0' <= #[trigger] decimal(n)[i] <= '9',
        decimal(n).len() > 1 ==> decimal(n)[0] != '0',
        decimal(n)[decimal(n).len() - 1] as int == 48 + n % 10,
        n >= 10 ==> decimal(n).take(decimal(n).len() - 1) == decimal(n / 10),
        n < 10 ==> decimal(n).len() == 1,
        n <= max ==> parsed(decimal(n), 10, max) == Some(n as int) && parsed(
            seq!['+'] + decimal(n),
            10,
            max,
        ) == Some(n as int),
        n > max ==> parsed(decimal(n), 10, max) is None,
    decreases n,
{
    lemma_decimal_digits(n);
    assert((seq!['+'] + decimal(n)).skip(1) =~= decimal(n));
    if n >= 10 {
        law_decimal(n / 10, max);
        assert(decimal(n).take(decimal(n).len() - 1) =~= decimal(n / 10));
        assert forall|i: int| 0 <= i < decimal(n).len() implies '0' <= #[trigger] decimal(n)[i]
            <= '9' by {
            if i < decimal(n).len() - 1 {
                assert(decimal(n)[i] == decimal(n / 10)[i]);
            }
        }
        assert(decimal(n)[0] == decimal(n / 10)[0]);
        if n < 100 {
            assert(decimal(n / 10)[0] as int == 48 + n / 10);
        }
    }
}

/// A text with a character that is no digit is no number, and neither is one without a digit.
pub proof fn law_no_number(s: Seq<char>, k: int, radix: int, max: int)
    requires
        2 <= radix <= 16,
    ensures
        parsed(Seq::empty(), radix, max) is None,
        parsed(seq!['+'], radix, max) is None,
        0 <= k < s.len() && !('0' <= s[k] <= '9') && !('a' <= s[k] <= 'f') && !('A' <= s[k] <= 'F')
            && !(k == 0 && s[0] == '+') ==> parsed(s, radix, max) is None,
        radix == 10 && 0 <= k < s.len() && !('0' <= s[k] <= '9') && !(k == 0 && s[0] == '+')
            ==> parsed(s, radix, max) is None,
{
    assert(seq!['+'].skip(1) =~= Seq::<char>::empty());
    if 0 <= k < s.len() {
        let plus = s[0] == '+';
        let digits = if plus {
            s.skip(1)
        } else {
            s
        };
        let j = if plus {
            k - 1
        } else {
            k
        };
        if 0 <= j {
            assert(digits[j] == s[k]);
            if digit_value(s[k], radix) is None {
                lemma_bad_digit(digits, j, radix);
            }
        }
    }
}

proof fn lemma_bad_digit(s: Seq<char>, k: int, radix: int)
    requires
        0 <= k < s.len(),
        digit_value(s[k], radix) is None,
    ensures
        digits_value(s, radix) is None,
    decreases s.len(),
{
    if k < s.len() - 1 {
        assert(s.drop_last()[k] == s[k]);
        lemma_bad_digit(s.drop_last(), k, radix);
    }
}

/// Texts are the same but for case exactly where they have the same length and agree character by
/// character but for the case of letters.
pub proof fn law_same_but_for_case(a: Seq<char>, b: Seq<char>)
    ensures
        same_folded(a, b) <==> a.len() == b.len() && forall|i: int|
            0 <= i < a.len() ==> #[trigger] a[i] == b[i] || ascii_lower(a[i]) == ascii_lower(b[i]),
{
    let x = a.map_values(|c: char| ascii_lower(c));
    let y = b.map_values(|c: char| ascii_lower(c));
    assert(x.len() == a.len() && y.len() == b.len());
    if same_folded(a, b) {
        assert(x == y);
        assert forall|i: int| 0 <= i < a.len() implies #[trigger] a[i] == b[i] || ascii_lower(a[i])
            == ascii_lower(b[i]) by {
            assert(x[i] == ascii_lower(a[i]));
            assert(y[i] == ascii_lower(b[i]));
        }
    } else if a.len() == b.len() {
        assert(!(x =~= y));
        let i = choose|i: int| 0 <= i < x.len() && x[i] != y[i];
        assert(a[i] != b[i] && ascii_lower(a[i]) != ascii_lower(b[i]));
    }
}


/// A digit added to a number multiplies it by the radix and adds its own value; the digits above
/// nine are letters, in capitals or not. What comes to more than is allowed is no number.
pub proof fn law_digits(s: Seq<char>, c: char, radix: int, max: int)
    requires
        2 <= radix <= 16,
        max >= 0,
    ensures
        '0' <= c <= '9' && c as int - 48 < radix && c as int - 48 <= max ==> parsed(
            seq![c],
            radix,
            max,
        ) == Some(c as int - 48),
        'a' <= c <= 'f' && radix == 16 && max >= 15 ==> parsed(seq![c], radix, max) == Some(
            c as int - 87,
        ),
        'A' <= c <= 'F' && radix == 16 && max >= 15 ==> parsed(seq![c], radix, max) == Some(
            c as int - 55,
        ),
        parsed(s, radix, max) is Some && parsed(seq![c], radix, 15) is Some ==> ({
            let v = parsed(s, radix, max)->0 * radix + parsed(seq![c], radix, 15)->0;
            &&& v <= max ==> parsed(s.push(c), radix, max) == Some(v)
            &&& v > max ==> parsed(s.push(c), radix, max) is None
        }),
{
    assert(seq![c].drop_last() =~= Seq::<char>::empty());
    assert(digits_value(seq![c].drop_last(), radix) == Some(0int));
    assert(0 * radix == 0) by (nonlinear_arith);
    assert(digits_value(seq![c], radix) == digit_value(c, radix));
    assert(seq!['+'].skip(1) =~= Seq::<char>::empty());
    if parsed(s, radix, max) is Some {
        let all = s.push(c);
        assert(all[0] == s[0]);
        let digits = if s[0] == '+' {
            s.skip(1)
        } else {
            s
        };
        let more = if s[0] == '+' {
            all.skip(1)
        } else {
            all
        };
        assert(more =~= digits.push(c));
        assert(more.drop_last() =~= digits);
    }
}

/// A number below zero is written with a minus sign before its size.
pub proof fn law_signed(n: int)
    ensures
        n >= 0 ==> signed_decimal(n) == decimal(n as nat),
        n < 0 ==> signed_decimal(n) == seq!['-'] + decimal((-n) as nat),
{
    reveal_strlit("-");
    assert("-"@ =~= seq!['-']);
}

/// What stands at an end again and again is left out there, and nothing else is.
pub proof fn law_stripped(s: Seq<char>, c: char)
    ensures
        without_front(seq![c] + s, c) == without_front(s, c),
        s.len() > 0 && s[0] != c ==> without_front(s, c) == s,
        without_front(Seq::empty(), c) == Seq::<char>::empty(),
        without_back(s.push(c), c) == without_back(s, c),
        s.len() > 0 && s.last() != c ==> without_back(s, c) == s,
        without_back(Seq::empty(), c) == Seq::<char>::empty(),
{
    assert((seq![c] + s).skip(1) =~= s);
    assert(s.push(c).drop_last() =~= s);
}

/// A text that is set is taken, and another only where none is.
pub proof fn law_text_or(o: Option<String>, other: Seq<char>)
    ensures
        o is Some ==> text_or(o, other) == (o->0)@,
        o is None ==> text_or(o, other) == other,
{
}

/// What is wrong with a number: nothing is there, it is too large, or a character is no digit.
pub proof fn law_faults(n: nat, max: int, s: Seq<char>)
    requires
        max >= 0,
    ensures
        fault(Seq::empty(), max) == "cannot parse integer from empty string"@,
        n > max ==> fault(decimal(n), max) == "number too large to fit in target type"@,
        s.len() > 0 && s[0] != '+' && !('0' <= s[0] <= '9') ==> fault(s, max)
            == "invalid digit found in string"@,
{
    law_decimal(n, max);
    let d = decimal(n);
    assert(d[0] != '+') by {
        assert('0' <= d[0] <= '9');
    }
    if n > max {
        law_decimal(n, n as int);
        assert(d.take(d.len() as int) =~= d);
        assert(overflows(d, max));
    }
    if s.len() > 0 && s[0] != '+' && !('0' <= s[0] <= '9') {
        assert forall|j: int| 0 <= j <= s.len() implies !(digits_value(
            #[trigger] s.take(j),
            10,
        ) matches Some(v) && v > max) by {
            if j > 0 {
                lemma_bad_first(s.take(j));
            } else {
                assert(s.take(0) =~= Seq::<char>::empty());
            }
        }
    }
}

proof fn lemma_bad_first(s: Seq<char>)
    requires
        s.len() > 0,
        !('0' <= s[0] <= '9'),
    ensures
        digits_value(s, 10) is None,
    decreases s.len(),
{
    if s.len() > 1 {
        assert(s.drop_last()[0] == s[0]);
        lemma_bad_first(s.drop_last());
    }
}

} // verus!
