//! Plain terminal text as Markdown: headings, lists and paragraphs.
use vstd::prelude::*;
use vstd::string::*;

use crate::text;

verus! {

broadcast use vstd::string::group_string_axioms;

// ---------------------------------------------------------------------------
// Kinds of lines
// ---------------------------------------------------------------------------

/// A decimal digit.
pub open spec fn is_digit(c: char) -> bool {
    '0' <= c <= '9'
}

/// How many digits a text begins with.
pub open spec fn digit_run(s: Seq<char>) -> nat
    decreases s.len(),
{
    if s.len() > 0 && is_digit(s[0]) {
        1 + digit_run(s.skip(1))
    } else {
        0
    }
}

/// A number, one of the given marks and a space stand at the beginning.
pub open spec fn numbered(s: Seq<char>, marks: Seq<char>) -> bool {
    let n = digit_run(s) as int;
    n > 0 && n + 1 < s.len() && marks.contains(s[n]) && s[n + 1] == ' '
}

/// Only upper-case letters, white space and digits, and two bytes or more.
pub open spec fn is_caps(s: Seq<char>) -> bool {
    (forall|i: int|
        0 <= i < s.len() ==> text::is_upper(#[trigger] s[i]) || text::is_space(s[i]) || is_digit(
            s[i],
        )) && text::byte_length(s) > 1
}

/// A character of a title.
pub open spec fn is_title_char(c: char) -> bool {
    is_digit(c) || 'a' <= c <= 'z' || 'A' <= c <= 'Z' || c == ' ' || c == '&' || c == '/' || c
        == '\\' || c == '-'
}

/// From 3 to 70 letters, digits, spaces and joining marks, an upper-case letter first.
pub open spec fn is_title(s: Seq<char>) -> bool {
    3 <= s.len() <= 70 && 'A' <= s[0] <= 'Z' && forall|i: int|
        0 <= i < s.len() ==> is_title_char(#[trigger] s[i])
}

/// A line, without white space around it, that is a heading.
pub open spec fn heads(line: Seq<char>) -> bool {
    let s = text::trimmed(line);
    s.len() > 0 && ((s.last() == ':' && text::byte_length(s) < 90) || is_caps(s) || numbered(
        s,
        seq!['.'],
    ) || is_title(s))
}

/// A line that begins an item of a list: a bullet or a number, and a space.
pub open spec fn lists(line: Seq<char>) -> bool {
    let s = text::trim_front(line);
    "- "@.is_prefix_of(s) || "* "@.is_prefix_of(s) || "• "@.is_prefix_of(s) || numbered(
        s,
        seq!['.', ')'],
    )
}

/// A line of running text.
pub open spec fn runs(line: Seq<char>) -> bool {
    text::trimmed(line).len() > 0 && !heads(text::trimmed(line)) && !lists(line)
}

/// The Markdown heading for a line: of the first level where it is all capitals, digits and
/// points, else of the second.
pub open spec fn heading(line: Seq<char>) -> Seq<char> {
    let s = text::trimmed(line);
    let top = forall|i: int|
        0 <= i < s.len() ==> text::is_upper(#[trigger] s[i]) || text::is_space(s[i]) || is_digit(
            s[i],
        ) || s[i] == '.';
    (if top {
        "#"@
    } else {
        "##"@
    }) + " "@ + text::without_back(s, ':')
}

// ---------------------------------------------------------------------------
// Blocks of lines
// ---------------------------------------------------------------------------

/// How many lines of running text some lines begin with.
pub open spec fn run_length(ls: Seq<Seq<char>>) -> nat
    decreases ls.len(),
{
    if ls.len() > 0 && runs(ls[0]) {
        1 + run_length(ls.skip(1))
    } else {
        0
    }
}

/// Lines without white space around them.
pub open spec fn trimmed_lines(ls: Seq<Seq<char>>) -> Seq<Seq<char>> {
    ls.map_values(|l: Seq<char>| text::trimmed(l))
}

/// Lines that continue an item of a list.
pub open spec fn continued(ls: Seq<Seq<char>>) -> Seq<Seq<char>> {
    ls.map_values(|l: Seq<char>| "  "@ + text::trimmed(l))
}

/// The Markdown lines for some lines: an empty line stays, a heading is marked, an item of a list
/// stays and what continues it is indented, and running text becomes one line with an empty one
/// behind it.
pub open spec fn blocks(ls: Seq<Seq<char>>) -> Seq<Seq<char>>
    decreases ls.len(),
{
    if ls.len() == 0 {
        Seq::empty()
    } else if text::trimmed(ls[0]).len() == 0 {
        seq![Seq::<char>::empty()] + blocks(ls.skip(1))
    } else if heads(text::trimmed(ls[0])) {
        seq![heading(text::trimmed(ls[0]))] + blocks(ls.skip(1))
    } else if lists(ls[0]) {
        let k = run_length(ls.skip(1)) as int;
        proof {
            lemma_run_length(ls.skip(1));
        }
        seq![ls[0]] + continued(ls.subrange(1, 1 + k)) + blocks(ls.skip(1 + k))
    } else {
        let k = run_length(ls) as int;
        proof {
            lemma_run_length(ls);
        }
        seq![text::joined(trimmed_lines(ls.take(k)), " "@), Seq::<char>::empty()] + blocks(
            ls.skip(k),
        )
    }
}

/// Some lines with no more than two empty ones in a row, each with a line feed, and the number of
/// empty lines at the end.
pub open spec fn squeezed(ls: Seq<Seq<char>>) -> (Seq<char>, nat)
    decreases ls.len(),
{
    if ls.len() == 0 {
        (Seq::empty(), 0)
    } else {
        let (before, blanks) = squeezed(ls.drop_last());
        if text::trimmed(ls.last()).len() == 0 {
            (
                if blanks < 2 {
                    before.push('\n')
                } else {
                    before
                },
                blanks + 1,
            )
        } else {
            ((before + ls.last()).push('\n'), 0)
        }
    }
}

/// `s` under a title, where its first line looks like one and is not marked yet.
pub open spec fn titled(s: Seq<char>) -> Seq<char> {
    let ls = text::lines(s);
    if ls.len() == 0 {
        s
    } else {
        let first = ls[0];
        let bare = text::trimmed(text::without_front(first, '#'));
        let capital = forall|i: int|
            0 <= i < bare.len() ==> text::is_upper(#[trigger] bare[i]) || text::is_space(bare[i]);
        if bare.len() > 0 && first[0] != '#' && (bare.last() == ':' || capital)
            && text::byte_length(bare) < 80 {
            "# "@ + text::without_back(bare, ':') + "\n\n"@ + s
        } else {
            s
        }
    }
}

/// The Markdown for a text.
pub open spec fn markdown(s: Seq<char>) -> Seq<char> {
    if text::trimmed(s).len() == 0 {
        Seq::empty()
    } else {
        let body = text::trimmed(text::joined(blocks(text::lines(s)), "\n"@));
        titled(text::trimmed(squeezed(text::lines(body)).0))
    }
}

// ---------------------------------------------------------------------------
// Telling lines apart
// ---------------------------------------------------------------------------

/// How many digits a text begins with.
fn count_digits(cs: &Vec<char>) -> (n: usize)
    ensures
        n == digit_run(cs@),
        n <= cs@.len(),
{
    let mut n: usize = 0;
    assert(cs@.skip(0) =~= cs@);
    while n < cs.len() && '0' <= cs[n] && cs[n] <= '9'
        invariant
            n <= cs@.len(),
            digit_run(cs@) == n + digit_run(cs@.skip(n as int)),
        decreases cs@.len() - n,
    {
        assert(cs@.skip(n as int).skip(1) =~= cs@.skip(n + 1));
        n = n + 1;
    }
    n
}

/// Whether a number, a point and a space stand at the beginning.
fn starts_with_number_dot(line: &str) -> (r: bool)
    ensures
        r == numbered(line@, seq!['.']),
{
    let cs = text::chars_of(line);
    let n = count_digits(&cs);
    if n == 0 || n >= cs.len() || n + 1 >= cs.len() {
        return false;
    }
    assert(seq!['.'].contains(cs@[n as int]) == (cs@[n as int] == '.')) by {
        assert(seq!['.'][0] == '.');
    }
    cs[n] == '.' && cs[n + 1] == ' '
}

/// Whether all characters are upper-case letters, white space, digits where they count, or points
/// where they count.
fn all_capital(cs: &Vec<char>, digits: bool, points: bool) -> (r: bool)
    ensures
        r == forall|i: int|
            0 <= i < cs@.len() ==> text::is_upper(#[trigger] cs@[i]) || text::is_space(cs@[i]) || (
            digits && is_digit(cs@[i])) || (points && cs@[i] == '.'),
{
    for i in 0..cs.len()
        invariant
            forall|j: int|
                0 <= j < i ==> text::is_upper(#[trigger] cs@[j]) || text::is_space(cs@[j]) || (
                digits && is_digit(cs@[j])) || (points && cs@[j] == '.'),
    {
        let c = cs[i];
        let fits = text::uppercase(c) || text::whitespace(c) || (digits && '0' <= c && c <= '9') || (
        points && c == '.');
        if !fits {
            assert(!(text::is_upper(cs@[i as int]) || text::is_space(cs@[i as int]) || (digits
                && is_digit(cs@[i as int])) || (points && cs@[i as int] == '.')));
            return false;
        }
    }
    true
}

/// Whether a text is a title.
fn is_title_case(line: &str) -> (r: bool)
    ensures
        r == is_title(text::trimmed(line@)),
{
    let s = text::trim(line);
    let cs = text::chars_of(s.as_str());
    if cs.len() < 3 || cs.len() > 70 {
        return false;
    }
    if cs[0] < 'A' || cs[0] > 'Z' {
        return false;
    }
    for i in 0..cs.len()
        invariant
            cs@ == s@,
            s@ == text::trimmed(line@),
            forall|j: int| 0 <= j < i ==> is_title_char(#[trigger] cs@[j]),
    {
        let c = cs[i];
        let fits = ('0' <= c && c <= '9') || ('a' <= c && c <= 'z') || ('A' <= c && c <= 'Z') || c
            == ' ' || c == '&' || c == '/' || c == '\\' || c == '-';
        if !fits {
            assert(!is_title_char(cs@[i as int]));
            return false;
        }
    }
    true
}

/// Whether a line is a heading.
fn is_heading(line: &str) -> (r: bool)
    ensures
        r == heads(line@),
{
    let s = text::trim(line);
    let cs = text::chars_of(s.as_str());
    if cs.len() == 0 {
        return false;
    }
    let size = text::byte_len(s.as_str());
    if cs[cs.len() - 1] == ':' && size < 90 {
        return true;
    }
    if all_capital(&cs, true, false) && size > 1 {
        return true;
    }
    proof {
        lemma_trimmed_twice(line@);
    }
    starts_with_number_dot(s.as_str()) || is_title_case(s.as_str())
}

proof fn lemma_trim_front_fixed(s: Seq<char>)
    ensures
        text::trim_front(text::trim_front(s)) == text::trim_front(s),
        text::trim_front(s).len() > 0 ==> !text::is_space(text::trim_front(s)[0]),
    decreases s.len(),
{
    if s.len() > 0 && text::is_space(s[0]) {
        lemma_trim_front_fixed(s.skip(1));
    }
}

proof fn lemma_trim_back_fixed(s: Seq<char>)
    ensures
        text::trim_back(text::trim_back(s)) == text::trim_back(s),
        text::trim_back(s).len() > 0 ==> text::trim_back(s)[0] == s[0],
        text::trim_back(s).len() <= s.len(),
    decreases s.len(),
{
    if s.len() > 0 && text::is_space(s.last()) {
        lemma_trim_back_fixed(s.drop_last());
    }
}

/// Taking white space from the ends a second time changes nothing.
pub proof fn lemma_trimmed_twice(s: Seq<char>)
    ensures
        text::trimmed(text::trimmed(s)) == text::trimmed(s),
{
    lemma_trim_front_fixed(s);
    lemma_trim_back_fixed(text::trim_front(s));
}

/// The Markdown heading for a line.
fn heading_line(line: &str) -> (r: String)
    ensures
        r@ == heading(line@),
{
    let s = text::trim(line);
    let cs = text::chars_of(s.as_str());
    let mut r = if all_capital(&cs, true, true) {
        "#".to_owned()
    } else {
        "##".to_owned()
    };
    r.append(" ");
    r.append(text::strip_back(s.as_str(), ':').as_str());
    r
}

/// Whether a line begins an item of a list.
fn is_list_start(line: &str) -> (r: bool)
    ensures
        r == lists(line@),
{
    let s = text::trim_start(line);
    if text::starts_with(s.as_str(), "- ") || text::starts_with(s.as_str(), "* ")
        || text::starts_with(s.as_str(), "• ") {
        return true;
    }
    let cs = text::chars_of(s.as_str());
    let n = count_digits(&cs);
    if n == 0 || n >= cs.len() || n + 1 >= cs.len() {
        return false;
    }
    assert(seq!['.', ')'].contains(cs@[n as int]) == (cs@[n as int] == '.' || cs@[n as int]
        == ')')) by {
        assert(seq!['.', ')'][0] == '.');
        assert(seq!['.', ')'][1] == ')');
    }
    (cs[n] == '.' || cs[n] == ')') && cs[n + 1] == ' '
}

/// Whether a line is running text.
fn is_running(line: &str) -> (r: bool)
    ensures
        r == runs(line@),
{
    let s = text::trim(line);
    !s.as_str().is_empty() && !is_heading(s.as_str()) && !is_list_start(line)
}

// ---------------------------------------------------------------------------
// The text
// ---------------------------------------------------------------------------

/// The run of lines of running text that some lines begin with ends where a line is something
/// else, or at the end.
pub proof fn lemma_run_length(ls: Seq<Seq<char>>)
    ensures
        run_length(ls) <= ls.len(),
        forall|i: int| 0 <= i < run_length(ls) ==> runs(#[trigger] ls[i]),
        run_length(ls) < ls.len() ==> !runs(ls[run_length(ls) as int]),
    decreases ls.len(),
{
    if ls.len() > 0 && runs(ls[0]) {
        let rest = ls.skip(1);
        lemma_run_length(rest);
        assert forall|i: int| 0 <= i < run_length(ls) implies runs(#[trigger] ls[i]) by {
            if i > 0 {
                assert(rest[i - 1] == ls[i]);
            }
        }
        if run_length(ls) < ls.len() {
            assert(rest[run_length(rest) as int] == ls[run_length(ls) as int]);
        }
    }
}

/// How many lines of running text there are from position `from` on.
fn running_from(ls: &Vec<String>, from: usize) -> (k: usize)
    requires
        from <= ls@.len(),
    ensures
        k == run_length(text::texts(ls@).skip(from as int)),
        from + k <= ls@.len(),
{
    let ghost all = text::texts(ls@);
    let ghost tail = all.skip(from as int);
    proof {
        lemma_run_length(tail);
    }
    let mut k: usize = 0;
    while from + k < ls.len() && is_running(ls[from + k].as_str())
        invariant
            all == text::texts(ls@),
            tail == all.skip(from as int),
            from + k <= ls.len(),
            forall|i: int| 0 <= i < k ==> runs(#[trigger] tail[i]),
        decreases ls@.len() - from - k,
    {
        assert(tail[k as int] == ls@[from + k]@);
        k = k + 1;
    }
    if from + k < ls.len() {
        assert(tail[k as int] == ls@[from + k]@);
        assert(!runs(tail[k as int]));
    }
    k
}

/// Adds the item of a list at position `i` and the lines that continue it, and tells how many
/// those are.
fn add_item(out: &mut Vec<String>, ls: &Vec<String>, i: usize) -> (k: usize)
    requires
        i < ls.len(),
    ensures
        k == run_length(text::texts(ls@).skip(i + 1)),
        i + 1 + k <= ls@.len(),
        text::texts(final(out)@) == text::texts(old(out)@) + (seq![ls@[i as int]@] + continued(
            text::texts(ls@).subrange(i + 1, i + 1 + k),
        )),
{
    let ghost all = text::texts(ls@);
    let ghost before = out@;
    let k = running_from(ls, i + 1);
    let ghost first = ls@[i as int]@;
    let ghost rest = continued(all.subrange(i + 1, i + 1 + k));
    out.push(ls[i].clone());
    assert(text::texts(out@) =~= text::texts(before) + (seq![first] + rest.take(0)));
    for j in 0..k
        invariant
            all == text::texts(ls@),
            i + 1 + k <= ls.len(),
            rest == continued(all.subrange(i + 1, i + 1 + k)),
            rest.len() == k,
            text::texts(out@) == text::texts(before) + (seq![first] + rest.take(j as int)),
    {
        let ghost was = out@;
        let t = text::trim(ls[i + 1 + j].as_str());
        assert(all.subrange(i + 1, i + 1 + k)[j as int] == ls@[i + 1 + j]@);
        let mut item = "  ".to_owned();
        item.append(t.as_str());
        out.push(item);
        assert(text::texts(out@) =~= text::texts(was).push(rest[j as int]));
        assert(text::texts(out@) =~= text::texts(before) + (seq![first] + rest.take(j + 1)));
    }
    assert(rest.take(k as int) =~= rest);
    k
}

/// The running text from position `i` on as one line, and how many lines it takes.
fn paragraph(ls: &Vec<String>, i: usize) -> (r: (String, usize))
    requires
        i < ls.len(),
    ensures
        r.1 == run_length(text::texts(ls@).skip(i as int)),
        i + r.1 <= ls@.len(),
        r.0@ == text::joined(
            trimmed_lines(text::texts(ls@).skip(i as int).take(r.1 as int)),
            " "@,
        ),
{
    let ghost all = text::texts(ls@);
    let ghost tail = all.skip(i as int);
    let k = running_from(ls, i);
    let mut para: Vec<String> = Vec::new();
    let ghost want = trimmed_lines(tail.take(k as int));
    assert(text::texts(para@) =~= want.take(0));
    for j in 0..k
        invariant
            all == text::texts(ls@),
            i + k <= ls.len(),
            tail == all.skip(i as int),
            want == trimmed_lines(tail.take(k as int)),
            want.len() == k,
            text::texts(para@) == want.take(j as int),
    {
        let ghost was = para@;
        let t = text::trim(ls[i + j].as_str());
        assert(tail.take(k as int)[j as int] == ls@[i + j]@);
        para.push(t);
        assert(text::texts(para@) =~= text::texts(was).push(want[j as int]));
        assert(text::texts(para@) =~= want.take(j + 1));
    }
    assert(want.take(k as int) =~= want);
    (text::join(&para, " "), k)
}

/// The Markdown lines for some lines.
fn make_blocks(ls: &Vec<String>) -> (r: Vec<String>)
    ensures
        text::texts(r@) == blocks(text::texts(ls@)),
{
    let ghost all = text::texts(ls@);
    let mut out: Vec<String> = Vec::new();
    let mut i: usize = 0;
    assert(all.skip(0) =~= all);
    assert(blocks(all) =~= text::texts(out@) + blocks(all.skip(0)));
    while i < ls.len()
        invariant
            all == text::texts(ls@),
            i <= ls@.len(),
            blocks(all) == text::texts(out@) + blocks(all.skip(i as int)),
        decreases ls@.len() - i,
    {
        let ghost tail = all.skip(i as int);
        let ghost before = text::texts(out@);
        assert(tail[0] == ls@[i as int]@);
        assert(tail.skip(1) =~= all.skip(i + 1));
        let line = text::trim(ls[i].as_str());
        if line.as_str().is_empty() {
            out.push(String::new());
            assert(text::texts(out@) =~= before + seq![Seq::<char>::empty()]);
            assert(text::texts(out@) + blocks(tail.skip(1)) =~= before + blocks(tail));
            i = i + 1;
        } else if is_heading(line.as_str()) {
            let h = heading_line(line.as_str());
            out.push(h);
            assert(text::texts(out@) =~= before + seq![h@]);
            assert(text::texts(out@) + blocks(tail.skip(1)) =~= before + blocks(tail));
            i = i + 1;
        } else if is_list_start(ls[i].as_str()) {
            let k = add_item(&mut out, ls, i);
            assert(tail.skip(1 + k) =~= all.skip(i + 1 + k));
            assert(tail.subrange(1, 1 + k) =~= all.subrange(i + 1, i + 1 + k));
            assert(text::texts(out@) + blocks(tail.skip(1 + k)) =~= before + blocks(tail));
            i = i + 1 + k;
        } else {
            proof {
                lemma_run_length(tail);
            }
            let (p, k) = paragraph(ls, i);
            out.push(p);
            out.push(String::new());
            assert(tail.skip(k as int) =~= all.skip(i + k));
            assert(text::texts(out@) =~= before + seq![p@, Seq::<char>::empty()]);
            assert(text::texts(out@) + blocks(tail.skip(k as int)) =~= before + blocks(tail));
            i = i + k;
        }
    }
    assert(text::texts(out@) + blocks(all.skip(i as int)) =~= text::texts(out@));
    out
}

/// Some lines with no more than two empty ones in a row, each with a line feed.
fn squeeze(ls: &Vec<String>) -> (r: String)
    ensures
        r@ == squeezed(text::texts(ls@)).0,
{
    let ghost all = text::texts(ls@);
    let mut r: String = String::new();
    let mut blanks: usize = 0;
    for i in 0..ls.len()
        invariant
            all == text::texts(ls@),
            blanks <= i,
            (r@, blanks as nat) == squeezed(all.take(i as int)),
    {
        assert(all.take(i + 1).drop_last() =~= all.take(i as int));
        assert(all.take(i + 1).last() == ls@[i as int]@);
        if text::trim(ls[i].as_str()).as_str().is_empty() {
            if blanks < 2 {
                text::push_char(&mut r, '\n');
            }
            blanks = blanks + 1;
        } else {
            blanks = 0;
            r.append(ls[i].as_str());
            text::push_char(&mut r, '\n');
        }
    }
    assert(all.take(all.len() as int) =~= all);
    r
}

/// A text under a title, where its first line looks like one and is not marked yet.
fn add_title(md: String) -> (r: String)
    ensures
        r@ == titled(md@),
{
    let ls = text::split_lines(md.as_str());
    assert(text::texts(ls@).len() == ls@.len());
    if ls.len() == 0 {
        return md;
    }
    assert(text::texts(ls@)[0] == ls@[0]@);
    let first = text::chars_of(ls[0].as_str());
    let bare = text::trim(text::strip_front(ls[0].as_str(), '#').as_str());
    let cs = text::chars_of(bare.as_str());
    if cs.len() == 0 {
        return md;
    }
    proof {
        lemma_front_len(ls@[0]@);
    }
    let like_title = cs[cs.len() - 1] == ':' || all_capital(&cs, false, false);
    if first[0] != '#' && like_title && text::byte_len(bare.as_str()) < 80 {
        let mut r = "# ".to_owned();
        r.append(text::strip_back(bare.as_str(), ':').as_str());
        r.append("\n\n");
        r.append(md.as_str());
        r
    } else {
        md
    }
}

/// What is left of a text after stripping cannot be longer than the text.
proof fn lemma_front_len(s: Seq<char>)
    ensures
        text::trimmed(text::without_front(s, '#')).len() <= s.len(),
{
    lemma_without_front_len(s);
    lemma_trim_front_len(text::without_front(s, '#'));
    lemma_trim_back_fixed(text::trim_front(text::without_front(s, '#')));
}

proof fn lemma_without_front_len(s: Seq<char>)
    ensures
        text::without_front(s, '#').len() <= s.len(),
    decreases s.len(),
{
    if s.len() > 0 && s[0] == '#' {
        lemma_without_front_len(s.skip(1));
    }
}

proof fn lemma_trim_front_len(s: Seq<char>)
    ensures
        text::trim_front(s).len() <= s.len(),
    decreases s.len(),
{
    if s.len() > 0 && text::is_space(s[0]) {
        lemma_trim_front_len(s.skip(1));
    }
}

/// Turns plain text into Markdown.
///
/// Headings, items of lists and paragraphs are told apart line by line. Text of white space alone
/// gives an empty result.
pub fn wall_to_markdown(text: &str) -> (r: String)
    ensures
        r@ == markdown(text@),
{
    if text::trim(text).as_str().is_empty() {
        return String::new();
    }
    let ls = text::split_lines(text);
    let out = make_blocks(&ls);
    let body = text::trim(text::join(&out, "\n").as_str());
    let kept = text::split_lines(body.as_str());
    let squeezed_text = squeeze(&kept);
    add_title(text::trim(squeezed_text.as_str()))
}

// ---------------------------------------------------------------------------
// Empty lines
// ---------------------------------------------------------------------------

/// Four line feeds stand in a row at a position.
pub open spec fn crowded(s: Seq<char>, i: int) -> bool {
    0 <= i && i + 4 <= s.len() && s[i] == '\n' && s[i + 1] == '\n' && s[i + 2] == '\n' && s[i + 3]
        == '\n'
}

proof fn lemma_pieces_bare(s: Seq<char>, k: int)
    requires
        0 <= k < text::pieces(s, '\n').len(),
    ensures
        !text::pieces(s, '\n')[k].contains('\n'),
    decreases s.len(),
{
    if s.len() > 0 {
        let before = text::pieces(s.drop_last(), '\n');
        text::lemma_pieces_nonempty(s.drop_last(), '\n');
        if k < before.len() {
            lemma_pieces_bare(s.drop_last(), k);
            if s.last() != '\n' && k == before.len() - 1 {
                let piece = text::pieces(s, '\n')[k];
                assert(piece == before.last().push(s.last()));
                if piece.contains('\n') {
                    let i = choose|i: int| 0 <= i < piece.len() && piece[i] == '\n';
                    assert(before.last()[i] == '\n');
                }
            }
        }
    }
}

proof fn lemma_lines_bare(s: Seq<char>, k: int)
    requires
        0 <= k < text::lines(s).len(),
    ensures
        !text::lines(s)[k].contains('\n'),
{
    text::lemma_pieces_nonempty(s, '\n');
    let line = text::lines(s)[k];
    let piece = text::pieces(s, '\n')[k];
    lemma_pieces_bare(s, k);
    if line.contains('\n') {
        let i = choose|i: int| 0 <= i < line.len() && line[i] == '\n';
        assert(piece[i] == '\n');
    }
}

/// How many line feeds the squeezed lines may end with.
spec fn most_feeds(ls: Seq<Seq<char>>) -> int {
    if squeezed(ls).1 < 2 {
        squeezed(ls).1 as int + 1
    } else {
        3
    }
}

proof fn lemma_squeezed_sparse(ls: Seq<Seq<char>>)
    requires
        forall|k: int| 0 <= k < ls.len() ==> !(#[trigger] ls[k]).contains('\n'),
    ensures
        forall|i: int| !crowded(squeezed(ls).0, i),
        squeezed(ls).0.len() > most_feeds(ls) ==> squeezed(ls).0[squeezed(ls).0.len() - 1
            - most_feeds(ls)] != '\n',
    decreases ls.len(),
{
    if ls.len() > 0 {
        let rest = ls.drop_last();
        let line = ls.last();
        lemma_squeezed_sparse(rest);
        let before = squeezed(rest).0;
        let after = squeezed(ls).0;
        if text::trimmed(line).len() > 0 {
            lemma_trim_front_len(line);
            lemma_trim_back_fixed(text::trim_front(line));
            assert(after[after.len() - 2] == line.last());
            assert(line.contains(line.last()));
            assert forall|i: int| !crowded(after, i) by {
                if crowded(after, i) {
                    if i + 4 <= before.len() {
                        assert(crowded(before, i));
                    } else if i + 4 == after.len() {
                        assert(after[i + 2] == line.last());
                    } else {
                        assert(after[i + 3] == line[i + 3 - before.len()]);
                        assert(line.contains(after[i + 3]));
                    }
                }
            }
        } else {
            assert forall|i: int| !crowded(after, i) by {
                if crowded(after, i) && i + 4 <= before.len() {
                    assert(crowded(before, i));
                }
            }
        }
    }
}

proof fn lemma_trim_front_part(s: Seq<char>)
    ensures
        text::trim_front(s).len() <= s.len(),
        text::trim_front(s) == s.skip(s.len() - text::trim_front(s).len()),
    decreases s.len(),
{
    if s.len() > 0 && text::is_space(s[0]) {
        lemma_trim_front_part(s.skip(1));
        let n = text::trim_front(s).len();
        assert(s.skip(1).skip(s.len() - 1 - n) =~= s.skip(s.len() - n));
    } else {
        assert(s.skip(0) =~= s);
    }
}

proof fn lemma_trim_back_part(s: Seq<char>)
    ensures
        text::trim_back(s).len() <= s.len(),
        text::trim_back(s) == s.take(text::trim_back(s).len() as int),
    decreases s.len(),
{
    if s.len() > 0 && text::is_space(s.last()) {
        lemma_trim_back_part(s.drop_last());
        let n = text::trim_back(s).len() as int;
        assert(s.drop_last().take(n) =~= s.take(n));
    } else {
        assert(s.take(s.len() as int) =~= s);
    }
}

/// What is left of a text without white space at its ends is a part of it.
proof fn lemma_trimmed_part(s: Seq<char>)
    ensures
        exists|from: int|
            0 <= from && from + text::trimmed(s).len() <= s.len() && #[trigger] s.subrange(
                from,
                from + text::trimmed(s).len(),
            ) == text::trimmed(s),
{
    let front = text::trim_front(s);
    let n = text::trimmed(s).len();
    let from = s.len() - front.len();
    lemma_trim_front_part(s);
    lemma_trim_back_part(front);
    assert(s.subrange(from, from + n) =~= front.take(n as int));
}

proof fn lemma_without_front_part(s: Seq<char>, c: char)
    ensures
        forall|x: char| text::without_front(s, c).contains(x) ==> s.contains(x),
    decreases s.len(),
{
    if s.len() > 0 && s[0] == c {
        lemma_without_front_part(s.skip(1), c);
        assert forall|x: char| text::without_front(s, c).contains(x) implies s.contains(x) by {
            assert(s.skip(1).contains(x));
            let i = choose|i: int| 0 <= i < s.skip(1).len() && s.skip(1)[i] == x;
            assert(s[i + 1] == x);
        }
    }
}

proof fn lemma_without_back_part(s: Seq<char>, c: char)
    ensures
        forall|x: char| text::without_back(s, c).contains(x) ==> s.contains(x),
    decreases s.len(),
{
    if s.len() > 0 && s.last() == c {
        lemma_without_back_part(s.drop_last(), c);
        assert forall|x: char| text::without_back(s, c).contains(x) implies s.contains(x) by {
            assert(s.drop_last().contains(x));
            let i = choose|i: int| 0 <= i < s.drop_last().len() && s.drop_last()[i] == x;
            assert(s[i] == x);
        }
    }
}

proof fn lemma_titled_sparse(s: Seq<char>)
    requires
        forall|i: int| !crowded(s, i),
        s.len() > 0 ==> s[0] != '\n',
    ensures
        forall|i: int| !crowded(titled(s), i),
{
    if titled(s) != s {
        let first = text::lines(s)[0];
        let front = text::without_front(first, '#');
        let bare = text::trimmed(front);
        let title = text::without_back(bare, ':');
        lemma_lines_bare(s, 0);
        lemma_without_front_part(first, '#');
        lemma_trimmed_part(front);
        lemma_without_back_part(bare, ':');
        assert(!title.contains('\n')) by {
            if title.contains('\n') {
                assert(bare.contains('\n'));
                let from = choose|from: int|
                    0 <= from && from + bare.len() <= front.len() && #[trigger] front.subrange(
                        from,
                        from + bare.len(),
                    ) == bare;
                let i = choose|i: int| 0 <= i < bare.len() && bare[i] == '\n';
                assert(front[from + i] == '\n');
                assert(front.contains('\n'));
            }
        }
        reveal_strlit("# ");
        reveal_strlit("\n\n");
        let all = titled(s);
        let k = 2 + title.len() as int;
        assert(all == "# "@ + title + "\n\n"@ + s);
        assert forall|i: int| !crowded(all, i) by {
            if crowded(all, i) {
                if i >= k + 2 {
                    assert(crowded(s, i - k - 2));
                } else if i >= k {
                    assert(all[k + 2] == s[0]);
                } else if i >= 2 {
                    assert(all[i] == title[i - 2]);
                    assert(title.contains(all[i]));
                } else {
                    assert(all[0] == '#');
                    assert(all[1] == ' ');
                }
            }
        }
    }
}

/// The Markdown never has more than two empty lines in a row.
pub proof fn law_few_empty_lines(s: Seq<char>)
    ensures
        forall|i: int| !crowded(markdown(s), i),
{
    if text::trimmed(s).len() > 0 {
        let body = text::trimmed(text::joined(blocks(text::lines(s)), "\n"@));
        let ls = text::lines(body);
        assert forall|k: int| 0 <= k < ls.len() implies !(#[trigger] ls[k]).contains('\n') by {
            lemma_lines_bare(body, k);
        }
        lemma_squeezed_sparse(ls);
        let all = squeezed(ls).0;
        let kept = text::trimmed(all);
        lemma_trimmed_part(all);
        let from = choose|from: int|
            0 <= from && from + kept.len() <= all.len() && #[trigger] all.subrange(
                from,
                from + kept.len(),
            ) == kept;
        assert forall|i: int| !crowded(kept, i) by {
            if crowded(kept, i) {
                assert(crowded(all, from + i));
            }
        }
        lemma_trim_front_fixed(all);
        lemma_trim_back_fixed(text::trim_front(all));
        lemma_titled_sparse(kept);
    }
}

// ---------------------------------------------------------------------------
// What is left of a text
// ---------------------------------------------------------------------------

/// A text with more than white space in it.
pub open spec fn inked(s: Seq<char>) -> bool {
    exists|i: int| 0 <= i < s.len() && !text::is_space(#[trigger] s[i])
}

spec fn some_inked(ls: Seq<Seq<char>>) -> bool {
    exists|k: int| 0 <= k < ls.len() && inked(#[trigger] ls[k])
}

proof fn lemma_inked_part(part: Seq<char>, before: Seq<char>, behind: Seq<char>)
    requires
        inked(part),
    ensures
        inked(before + part + behind),
{
    let i = choose|i: int| 0 <= i < part.len() && !text::is_space(#[trigger] part[i]);
    assert((before + part + behind)[before.len() + i] == part[i]);
}

proof fn lemma_trim_front_inked(s: Seq<char>)
    ensures
        inked(text::trim_front(s)) == inked(s),
    decreases s.len(),
{
    if s.len() > 0 && text::is_space(s[0]) {
        let rest = s.skip(1);
        lemma_trim_front_inked(rest);
        if inked(s) {
            let i = choose|i: int| 0 <= i < s.len() && !text::is_space(#[trigger] s[i]);
            assert(rest[i - 1] == s[i]);
        }
        if inked(rest) {
            let i = choose|i: int| 0 <= i < rest.len() && !text::is_space(#[trigger] rest[i]);
            assert(s[i + 1] == rest[i]);
        }
    }
}

proof fn lemma_trim_back_inked(s: Seq<char>)
    ensures
        inked(text::trim_back(s)) == inked(s),
        text::trim_back(s).len() > 0 ==> !text::is_space(text::trim_back(s).last()),
    decreases s.len(),
{
    if s.len() > 0 && text::is_space(s.last()) {
        let rest = s.drop_last();
        lemma_trim_back_inked(rest);
        if inked(s) {
            let i = choose|i: int| 0 <= i < s.len() && !text::is_space(#[trigger] s[i]);
            assert(rest[i] == s[i]);
        }
        if inked(rest) {
            let i = choose|i: int| 0 <= i < rest.len() && !text::is_space(#[trigger] rest[i]);
            assert(s[i] == rest[i]);
        }
    }
}

/// Something is left of a text without the white space around it exactly where there is more in it.
proof fn lemma_trimmed_inked(s: Seq<char>)
    ensures
        inked(text::trimmed(s)) == inked(s),
        text::trimmed(s).len() > 0 <==> inked(s),
        text::trimmed(s).len() > 0 ==> !text::is_space(text::trimmed(s)[0]) && !text::is_space(
            text::trimmed(s).last(),
        ),
{
    let front = text::trim_front(s);
    lemma_trim_front_inked(s);
    lemma_trim_back_inked(front);
    lemma_trim_front_fixed(s);
    lemma_trim_back_fixed(front);
    let t = text::trimmed(s);
    if t.len() > 0 {
        assert(!text::is_space(t[t.len() - 1]));
    }
}

proof fn lemma_pieces_inked(s: Seq<char>)
    requires
        inked(s),
    ensures
        some_inked(text::pieces(s, '\n')),
    decreases s.len(),
{
    let rest = s.drop_last();
    let before = text::pieces(rest, '\n');
    let all = text::pieces(s, '\n');
    text::lemma_pieces_nonempty(rest, '\n');
    if !text::is_space(s.last()) {
        let last = all.last();
        assert(last == before.last().push(s.last()));
        assert(last[last.len() - 1] == s.last());
        assert(inked(all[all.len() - 1]));
    } else {
        let i = choose|i: int| 0 <= i < s.len() && !text::is_space(#[trigger] s[i]);
        assert(rest[i] == s[i]);
        lemma_pieces_inked(rest);
        let k = choose|k: int| 0 <= k < before.len() && inked(#[trigger] before[k]);
        if s.last() != '\n' && k == before.len() - 1 {
            lemma_inked_part(before[k], Seq::empty(), seq![s.last()]);
            assert(Seq::<char>::empty() + before[k] + seq![s.last()] =~= all[k]);
        } else {
            assert(all[k] == before[k]);
        }
        assert(inked(all[k]));
    }
}

proof fn lemma_lines_inked(s: Seq<char>)
    requires
        inked(s),
    ensures
        some_inked(text::lines(s)),
{
    text::lemma_pieces_nonempty(s, '\n');
    lemma_pieces_inked(s);
    let p = text::pieces(s, '\n');
    let k = choose|k: int| 0 <= k < p.len() && inked(#[trigger] p[k]);
    let i = choose|i: int| 0 <= i < p[k].len() && !text::is_space(#[trigger] p[k][i]);
    let line = text::lines(s)[k];
    if k < p.len() - 1 {
        assert(line == text::strip_return(p[k]));
    }
    assert(line[i] == p[k][i]);
    assert(inked(line));
}

proof fn lemma_joined_inked(parts: Seq<Seq<char>>, sep: Seq<char>)
    requires
        some_inked(parts),
    ensures
        inked(text::joined(parts, sep)),
    decreases parts.len(),
{
    let k = choose|k: int| 0 <= k < parts.len() && inked(#[trigger] parts[k]);
    if parts.len() > 1 {
        let rest = parts.drop_last();
        if k < rest.len() {
            assert(inked(rest[k]));
            lemma_joined_inked(rest, sep);
            lemma_inked_part(text::joined(rest, sep), Seq::empty(), sep + parts.last());
            assert(Seq::<char>::empty() + text::joined(rest, sep) + (sep + parts.last())
                =~= text::joined(parts, sep));
        } else {
            lemma_inked_part(parts[k], text::joined(rest, sep) + sep, Seq::empty());
            assert(text::joined(rest, sep) + sep + parts[k] + Seq::<char>::empty() =~= text::joined(
                parts,
                sep,
            ));
        }
    }
}

proof fn lemma_blocks_inked(ls: Seq<Seq<char>>)
    requires
        some_inked(ls),
    ensures
        some_inked(blocks(ls)),
    decreases ls.len(),
{
    let out = blocks(ls);
    let line = text::trimmed(ls[0]);
    lemma_trimmed_inked(ls[0]);
    if line.len() == 0 {
        let rest = ls.skip(1);
        let k = choose|k: int| 0 <= k < ls.len() && inked(#[trigger] ls[k]);
        assert(rest[k - 1] == ls[k]);
        lemma_blocks_inked(rest);
        let j = choose|j: int| 0 <= j < blocks(rest).len() && inked(#[trigger] blocks(rest)[j]);
        assert(out[j + 1] == blocks(rest)[j]);
    } else {
        if heads(line) {
            reveal_strlit("#");
            reveal_strlit("##");
            assert(out[0] == heading(line));
            assert(out[0][0] == '#');
        } else if lists(ls[0]) {
            assert(out[0] == ls[0]);
        } else {
            let k = run_length(ls) as int;
            lemma_run_length(ls);
            let parts = trimmed_lines(ls.take(k));
            assert(parts[0] == line);
            assert(inked(parts[0]));
            lemma_joined_inked(parts, " "@);
            assert(out[0] == text::joined(parts, " "@));
        }
        assert(inked(out[0]));
    }
}

proof fn lemma_squeezed_inked(ls: Seq<Seq<char>>)
    requires
        some_inked(ls),
    ensures
        inked(squeezed(ls).0),
    decreases ls.len(),
{
    let rest = ls.drop_last();
    let before = squeezed(rest).0;
    let after = squeezed(ls).0;
    lemma_trimmed_inked(ls.last());
    if inked(ls.last()) {
        lemma_inked_part(ls.last(), before, seq!['\n']);
        assert(before + ls.last() + seq!['\n'] =~= after);
    } else {
        let k = choose|k: int| 0 <= k < ls.len() && inked(#[trigger] ls[k]);
        assert(inked(rest[k]));
        lemma_squeezed_inked(rest);
        lemma_inked_part(before, Seq::empty(), seq!['\n']);
        assert(Seq::<char>::empty() + before + seq!['\n'] =~= before.push('\n'));
    }
}

/// The Markdown is empty exactly where the text is of white space alone, and it has no white space
/// around it.
pub proof fn law_markdown_keeps_within(s: Seq<char>)
    ensures
        markdown(s).len() == 0 <==> !inked(s),
        text::trimmed(markdown(s)) == markdown(s),
{
    lemma_trimmed_inked(s);
    if inked(s) {
        let ls = text::lines(s);
        lemma_lines_inked(s);
        lemma_blocks_inked(ls);
        let wall = text::joined(blocks(ls), "\n"@);
        lemma_joined_inked(blocks(ls), "\n"@);
        lemma_trimmed_inked(wall);
        let body = text::trimmed(wall);
        lemma_lines_inked(body);
        lemma_squeezed_inked(text::lines(body));
        let all = squeezed(text::lines(body)).0;
        lemma_trimmed_inked(all);
        let kept = text::trimmed(all);
        reveal_strlit("# ");
        let m = markdown(s);
        assert(m == titled(kept));
        assert(m.len() >= kept.len());
        assert(m[m.len() - 1] == kept[kept.len() - 1]);
        assert(m[0] == kept[0] || m[0] == '#');
        assert(text::trim_front(m) == m);
        assert(text::trim_back(m) == m);
    }
}

// ---------------------------------------------------------------------------
// What becomes of each line
// ---------------------------------------------------------------------------

/// A line that begins, behind any white space, with a bullet and a space.
pub open spec fn bulleted(line: Seq<char>) -> bool {
    exists|gap: Seq<char>, rest: Seq<char>|
        #![trigger gap + rest]
        line == gap + rest && text::blank_text(gap) && rest.len() >= 2 && (rest[0] == '-' || rest[0]
            == '*' || rest[0] == '\u{2022}') && rest[1] == ' '
}

/// A line that begins, behind any white space, with a number, a point or a bracket, and a space.
pub open spec fn counted(line: Seq<char>) -> bool {
    exists|gap: Seq<char>, digits: Seq<char>, rest: Seq<char>|
        #![trigger gap + digits + rest]
        line == gap + digits + rest && text::blank_text(gap) && digits.len() > 0 && (forall|i: int|
            0 <= i < digits.len() ==> '0' <= #[trigger] digits[i] <= '9') && rest.len() >= 2 && (
        rest[0] == '.' || rest[0] == ')') && rest[1] == ' '
}

proof fn lemma_trim_front_is(gap: Seq<char>, rest: Seq<char>)
    requires
        text::blank_text(gap),
        rest.len() > 0,
        !text::is_space(rest[0]),
    ensures
        text::trim_front(gap + rest) == rest,
    decreases gap.len(),
{
    let s = gap + rest;
    if gap.len() == 0 {
        assert(s =~= rest);
    } else {
        assert(s[0] == gap[0]);
        let less = gap.skip(1);
        assert forall|i: int| 0 <= i < less.len() implies text::is_space(#[trigger] less[i]) by {
            assert(less[i] == gap[i + 1]);
        }
        assert(s.skip(1) =~= less + rest);
        lemma_trim_front_is(less, rest);
    }
}

proof fn lemma_trim_front_splits(s: Seq<char>)
    ensures
        text::trim_front(s).len() <= s.len(),
        s == s.take(s.len() - text::trim_front(s).len()) + text::trim_front(s),
        text::blank_text(s.take(s.len() - text::trim_front(s).len())),
    decreases s.len(),
{
    lemma_trim_front_part(s);
    let k = s.len() - text::trim_front(s).len();
    assert(s =~= s.take(k) + text::trim_front(s));
    if s.len() > 0 && text::is_space(s[0]) {
        let rest = s.skip(1);
        lemma_trim_front_splits(rest);
        assert forall|i: int| 0 <= i < k implies text::is_space(#[trigger] s.take(k)[i]) by {
            if i > 0 {
                assert(rest.take(k - 1)[i - 1] == s[i]);
            }
        }
    }
}

proof fn lemma_digit_run(digits: Seq<char>, rest: Seq<char>)
    requires
        forall|i: int| 0 <= i < digits.len() ==> '0' <= #[trigger] digits[i] <= '9',
        rest.len() > 0,
        !('0' <= rest[0] <= '9'),
    ensures
        digit_run(digits + rest) == digits.len(),
    decreases digits.len(),
{
    let s = digits + rest;
    if digits.len() == 0 {
        assert(s =~= rest);
    } else {
        let less = digits.skip(1);
        assert(s[0] == digits[0]);
        assert(s.skip(1) =~= less + rest);
        assert forall|i: int| 0 <= i < less.len() implies '0' <= #[trigger] less[i] <= '9' by {
            assert(less[i] == digits[i + 1]);
        }
        lemma_digit_run(less, rest);
    }
}

proof fn lemma_digit_run_digits(s: Seq<char>)
    ensures
        digit_run(s) <= s.len(),
        forall|i: int| 0 <= i < digit_run(s) ==> '0' <= #[trigger] s[i] <= '9',
        digit_run(s) < s.len() ==> !('0' <= s[digit_run(s) as int] <= '9'),
    decreases s.len(),
{
    if s.len() > 0 && is_digit(s[0]) {
        let rest = s.skip(1);
        lemma_digit_run_digits(rest);
        assert forall|i: int| 0 <= i < digit_run(s) implies '0' <= #[trigger] s[i] <= '9' by {
            if i > 0 {
                assert(rest[i - 1] == s[i]);
            }
        }
        if digit_run(s) < s.len() {
            assert(rest[digit_run(rest) as int] == s[digit_run(s) as int]);
        }
    }
}

/// A line begins an item of a list exactly where it begins, behind any white space, with a dash, a
/// star or a bullet and a space, or with a number, a point or a bracket, and a space.
pub proof fn law_list_lines(line: Seq<char>)
    ensures
        lists(line) <==> bulleted(line) || counted(line),
{
    reveal_strlit("- ");
    reveal_strlit("* ");
    reveal_strlit("\u{2022} ");
    let s = text::trim_front(line);
    lemma_trim_front_splits(line);
    let gap = line.take(line.len() - s.len());
    if lists(line) {
        if "- "@.is_prefix_of(s) || "* "@.is_prefix_of(s) || "\u{2022} "@.is_prefix_of(s) {
            assert(line == gap + s);
            assert(s[0] == s.take(2)[0] && s[1] == s.take(2)[1]);
            assert(bulleted(line));
        } else {
            lemma_digit_run_digits(s);
            let n = digit_run(s) as int;
            let digits = s.take(n);
            let rest = s.skip(n);
            assert(digits + rest =~= s);
            assert(line =~= gap + digits + rest);
            assert(rest[0] == s[n] && rest[1] == s[n + 1]);
            assert(seq!['.', ')'].contains(s[n]));
            assert(counted(line));
        }
    }
    if bulleted(line) {
        let (g, rest) = choose|g: Seq<char>, rest: Seq<char>|
            #![trigger g + rest]
            line == g + rest && text::blank_text(g) && rest.len() >= 2 && (rest[0] == '-' || rest[0]
                == '*' || rest[0] == '\u{2022}') && rest[1] == ' ';
        lemma_trim_front_is(g, rest);
        if rest[0] == '-' {
            assert(rest.take(2) =~= "- "@);
        } else if rest[0] == '*' {
            assert(rest.take(2) =~= "* "@);
        } else {
            assert(rest.take(2) =~= "\u{2022} "@);
        }
    }
    if counted(line) {
        let (g, digits, rest) = choose|g: Seq<char>, digits: Seq<char>, rest: Seq<char>|
            #![trigger g + digits + rest]
            line == g + digits + rest && text::blank_text(g) && digits.len() > 0 && (forall|i: int|
                0 <= i < digits.len() ==> '0' <= #[trigger] digits[i] <= '9') && rest.len() >= 2 && (
            rest[0] == '.' || rest[0] == ')') && rest[1] == ' ';
        let t = digits + rest;
        assert(line =~= g + t);
        assert(t[0] == digits[0]);
        lemma_trim_front_is(g, t);
        lemma_digit_run(digits, rest);
        let n = digits.len() as int;
        assert(t[n] == rest[0] && t[n + 1] == rest[1]);
        assert(seq!['.', ')'][0] == '.' && seq!['.', ')'][1] == ')');
        assert(seq!['.', ')'].contains(t[n]));
    }
}

/// A line is a heading exactly where, without the white space around it, it is short and ends in a
/// colon, is all capitals, digits and white space and more than one byte, begins with a number, a
/// point and a space, or is a short title of plain words that begins with a capital.
pub proof fn law_heading_lines(line: Seq<char>)
    ensures
        ({
            let s = text::trimmed(line);
            heads(line) <==> s.len() > 0 && {
                ||| s[s.len() - 1] == ':' && text::byte_length(s) < 90
                ||| text::byte_length(s) > 1 && forall|i: int|
                    0 <= i < s.len() ==> text::is_upper(#[trigger] s[i]) || text::is_space(s[i])
                        || '0' <= s[i] <= '9'
                ||| exists|n: int|
                    0 < n < s.len() - 1 && #[trigger] s[n] == '.' && s[n + 1] == ' ' && forall|i: int|
                        0 <= i < n ==> '0' <= #[trigger] s[i] <= '9'
                ||| 3 <= s.len() <= 70 && 'A' <= s[0] <= 'Z' && forall|i: int|
                    0 <= i < s.len() ==> '0' <= #[trigger] s[i] <= '9' || 'a' <= s[i] <= 'z' || 'A'
                        <= s[i] <= 'Z' || s[i] == ' ' || s[i] == '&' || s[i] == '/' || s[i] == '\\'
                        || s[i] == '-'
            }
        }),
{
    let s = text::trimmed(line);
    assert(seq!['.'][0] == '.');
    if numbered(s, seq!['.']) {
        lemma_digit_run_digits(s);
        let n = digit_run(s) as int;
        assert(s[n] == '.');
    }
    if exists|n: int|
        0 < n < s.len() - 1 && #[trigger] s[n] == '.' && s[n + 1] == ' ' && forall|i: int|
            0 <= i < n ==> '0' <= #[trigger] s[i] <= '9' {
        let n = choose|n: int|
            0 < n < s.len() - 1 && #[trigger] s[n] == '.' && s[n + 1] == ' ' && forall|i: int|
                0 <= i < n ==> '0' <= #[trigger] s[i] <= '9';
        let digits = s.take(n);
        let rest = s.skip(n);
        assert(digits + rest =~= s);
        assert forall|i: int| 0 <= i < digits.len() implies '0' <= #[trigger] digits[i] <= '9' by {
            assert(digits[i] == s[i]);
        }
        assert(rest[0] == s[n]);
        lemma_digit_run(digits, rest);
        assert(seq!['.'].contains(s[n]));
    }
}

/// A heading is marked with one sign where it is all capitals, digits, points and white space, with
/// two where it is not, and loses the colons at its end and nothing else.
pub proof fn law_heading_text(line: Seq<char>)
    ensures
        ({
            let s = text::trimmed(line);
            let top = forall|i: int|
                0 <= i < s.len() ==> text::is_upper(#[trigger] s[i]) || text::is_space(s[i]) || '0'
                    <= s[i] <= '9' || s[i] == '.';
            exists|k: int|
                0 <= k <= s.len() && heading(line) == (if top {
                    seq!['#', ' ']
                } else {
                    seq!['#', '#', ' ']
                }) + #[trigger] s.take(k) && (k > 0 ==> s[k - 1] != ':') && forall|i: int|
                    k <= i < s.len() ==> #[trigger] s[i] == ':'
        }),
{
    reveal_strlit("#");
    reveal_strlit("##");
    reveal_strlit(" ");
    let s = text::trimmed(line);
    lemma_without_back_leaves(s, ':');
    let k = text::without_back(s, ':').len() as int;
    assert("#"@ + " "@ =~= seq!['#', ' ']);
    assert("##"@ + " "@ =~= seq!['#', '#', ' ']);
    assert(s.take(k) == text::without_back(s, ':'));
}

proof fn lemma_without_back_leaves(s: Seq<char>, c: char)
    ensures
        text::without_back(s, c).len() <= s.len(),
        text::without_back(s, c) == s.take(text::without_back(s, c).len() as int),
        text::without_back(s, c).len() > 0 ==> text::without_back(s, c).last() != c,
        forall|i: int| text::without_back(s, c).len() <= i < s.len() ==> #[trigger] s[i] == c,
    decreases s.len(),
{
    if s.len() > 0 && s.last() == c {
        let rest = s.drop_last();
        lemma_without_back_leaves(rest, c);
        let n = text::without_back(s, c).len() as int;
        assert(rest.take(n) =~= s.take(n));
        assert forall|i: int| n <= i < s.len() implies #[trigger] s[i] == c by {
            if i < rest.len() {
                assert(rest[i] == s[i]);
            }
        }
    } else {
        assert(s.take(s.len() as int) =~= s);
    }
}

/// A line that begins an item of a list and is no heading stands as a line of its own, unchanged,
/// wherever it stands in the text; and lines of that kind alone stay as they are.
pub proof fn law_items_stand(ls: Seq<Seq<char>>, i: int)
    requires
        0 <= i < ls.len(),
        bulleted(ls[i]) || counted(ls[i]),
        !heads(text::trimmed(ls[i])),
    ensures
        blocks(ls).contains(ls[i]),
        (forall|j: int|
            0 <= j < ls.len() ==> (bulleted(#[trigger] ls[j]) || counted(ls[j])) && !heads(
                text::trimmed(ls[j]),
            )) ==> blocks(ls) == ls,
    decreases ls.len(),
{
    let line = ls[i];
    law_list_lines(line);
    lemma_listed_inked(line);
    lemma_item_in_blocks(ls, i);
    if forall|j: int|
        0 <= j < ls.len() ==> (bulleted(#[trigger] ls[j]) || counted(ls[j])) && !heads(
            text::trimmed(ls[j]),
        ) {
        assert forall|j: int| 0 <= j < ls.len() implies lists(#[trigger] ls[j]) && !heads(
            text::trimmed(ls[j]),
        ) && text::trimmed(ls[j]).len() > 0 by {
            law_list_lines(ls[j]);
            lemma_listed_inked(ls[j]);
        }
        lemma_items_alone(ls);
    }
}

proof fn lemma_listed_inked(line: Seq<char>)
    requires
        lists(line),
    ensures
        text::trimmed(line).len() > 0,
{
    reveal_strlit("- ");
    reveal_strlit("* ");
    reveal_strlit("\u{2022} ");
    let s = text::trim_front(line);
    lemma_trim_front_part(line);
    lemma_digit_run_digits(s);
    assert(s.len() > 0);
    lemma_trim_front_fixed(line);
    assert(inked(s)) by {
        assert(!text::is_space(s[0]));
    }
    lemma_trim_front_inked(line);
    lemma_trimmed_inked(line);
}

proof fn lemma_item_in_blocks(ls: Seq<Seq<char>>, i: int)
    requires
        0 <= i < ls.len(),
        lists(ls[i]),
        !heads(text::trimmed(ls[i])),
        text::trimmed(ls[i]).len() > 0,
    ensures
        blocks(ls).contains(ls[i]),
    decreases ls.len(),
{
    let out = blocks(ls);
    let skipped: int = if text::trimmed(ls[0]).len() == 0 || heads(text::trimmed(ls[0])) {
        1
    } else if lists(ls[0]) {
        (1 + run_length(ls.skip(1))) as int
    } else {
        run_length(ls) as int
    };
    lemma_run_length(ls);
    lemma_run_length(ls.skip(1));
    if i == 0 {
        assert(out[0] == ls[0]);
    } else {
        assert(i >= skipped) by {
            if i < skipped {
                if lists(ls[0]) && text::trimmed(ls[0]).len() > 0 && !heads(text::trimmed(ls[0])) {
                    assert(runs(ls.skip(1)[i - 1]));
                    assert(ls.skip(1)[i - 1] == ls[i]);
                } else {
                    assert(runs(ls[i]));
                }
            }
        }
        if skipped == 0 {
            assert(!runs(ls[0]));
        }
        let rest = ls.skip(skipped);
        assert(rest[i - skipped] == ls[i]);
        lemma_item_in_blocks(rest, i - skipped);
        let later = blocks(rest);
        let k = choose|k: int| 0 <= k < later.len() && later[k] == ls[i];
        assert(out[out.len() - later.len() + k] == later[k]);
    }
}

proof fn lemma_items_alone(ls: Seq<Seq<char>>)
    requires
        forall|j: int|
            0 <= j < ls.len() ==> lists(#[trigger] ls[j]) && !heads(text::trimmed(ls[j]))
                && text::trimmed(ls[j]).len() > 0,
    ensures
        blocks(ls) == ls,
    decreases ls.len(),
{
    if ls.len() > 0 {
        let rest = ls.skip(1);
        assert(lists(ls[0]));
        if rest.len() > 0 {
            assert(rest[0] == ls[1]);
            assert(!runs(rest[0]));
        }
        assert(run_length(rest) == 0);
        assert forall|j: int| 0 <= j < rest.len() implies lists(#[trigger] rest[j]) && !heads(
            text::trimmed(rest[j]),
        ) && text::trimmed(rest[j]).len() > 0 by {
            assert(rest[j] == ls[j + 1]);
        }
        lemma_items_alone(rest);
        assert(ls.subrange(1, 1) =~= Seq::<Seq<char>>::empty());
        assert(continued(ls.subrange(1, 1)) =~= Seq::<Seq<char>>::empty());
        assert(blocks(ls) =~= ls);
    } else {
        assert(blocks(ls) =~= ls);
    }
}

/// Line by line: a blank line stays an empty one, a heading is marked, and neither touches what
/// follows.
pub proof fn law_blank_lines_and_headings(line: Seq<char>, rest: Seq<Seq<char>>)
    ensures
        text::blank_text(line) ==> blocks(seq![line] + rest) == seq![Seq::<char>::empty()] + blocks(
            rest,
        ),
        heads(line) ==> blocks(seq![line] + rest) == seq![heading(line)] + blocks(rest),
{
    let ls = seq![line] + rest;
    assert(ls.skip(1) =~= rest);
    assert(ls[0] == line);
    lemma_trimmed_inked(line);
    lemma_trimmed_twice(line);
    if text::blank_text(line) {
        assert(!inked(line));
    }
}

/// Lines of running text become one line, each without the white space around it and with a space
/// between each two, and an empty line behind them; behind an item they become lines of it, indented
/// by two spaces.
pub proof fn law_running_text(
    item: Seq<char>,
    para: Seq<Seq<char>>,
    rest: Seq<Seq<char>>,
)
    requires
        forall|i: int|
            0 <= i < para.len() ==> inked(#[trigger] para[i]) && !heads(para[i]) && !bulleted(
                para[i],
            ) && !counted(para[i]),
        rest.len() > 0 ==> !inked(rest[0]) || heads(rest[0]) || bulleted(rest[0]) || counted(rest[0]),
    ensures
        para.len() > 0 ==> blocks(para + rest) == seq![
            text::joined(para.map_values(|l: Seq<char>| text::trimmed(l)), seq![' ']),
            Seq::<char>::empty(),
        ] + blocks(rest),
        (bulleted(item) || counted(item)) && !heads(item) ==> blocks(seq![item] + para + rest)
            == seq![item] + para.map_values(|l: Seq<char>| seq![' ', ' '] + text::trimmed(l))
            + blocks(rest),
{
    reveal_strlit(" ");
    reveal_strlit("  ");
    assert(" "@ =~= seq![' ']);
    assert("  "@ =~= seq![' ', ' ']);
    assert forall|i: int| 0 <= i < para.len() implies runs(#[trigger] para[i]) by {
        lemma_trimmed_inked(para[i]);
        lemma_trimmed_twice(para[i]);
        law_list_lines(para[i]);
    }
    if rest.len() > 0 {
        lemma_trimmed_inked(rest[0]);
        lemma_trimmed_twice(rest[0]);
        law_list_lines(rest[0]);
    }
    lemma_run_length_is(para, rest);
    let ls = para + rest;
    let n = para.len() as int;
    assert(ls.take(n) =~= para);
    assert(ls.skip(n) =~= rest);
    if n > 0 {
        assert(ls[0] == para[0]);
        assert(runs(para[0]));
        assert(trimmed_lines(para) =~= para.map_values(|l: Seq<char>| text::trimmed(l)));
    }
    if (bulleted(item) || counted(item)) && !heads(item) {
        law_list_lines(item);
        lemma_listed_inked(item);
        lemma_trimmed_twice(item);
        let all = seq![item] + para + rest;
        assert(all[0] == item);
        assert(all.skip(1) =~= ls);
        assert(all.subrange(1, 1 + n) =~= para);
        assert(all.skip(1 + n) =~= rest);
        assert(continued(para) =~= para.map_values(
            |l: Seq<char>| seq![' ', ' '] + text::trimmed(l),
        ));
    }
}

proof fn lemma_run_length_is(para: Seq<Seq<char>>, rest: Seq<Seq<char>>)
    requires
        forall|i: int| 0 <= i < para.len() ==> runs(#[trigger] para[i]),
        rest.len() > 0 ==> !runs(rest[0]),
    ensures
        run_length(para + rest) == para.len(),
    decreases para.len(),
{
    let ls = para + rest;
    if para.len() > 0 {
        let less = para.skip(1);
        assert(ls[0] == para[0]);
        assert(ls.skip(1) =~= less + rest);
        assert forall|i: int| 0 <= i < less.len() implies runs(#[trigger] less[i]) by {
            assert(less[i] == para[i + 1]);
        }
        lemma_run_length_is(less, rest);
    } else {
        assert(ls =~= rest);
    }
}

/// Squeezing keeps every line that is more than white space, as it is and with its line feed, and the
/// first two of empty lines in a row.
pub proof fn law_squeezing_keeps_lines(ls: Seq<Seq<char>>, line: Seq<char>)
    ensures
        inked(line) ==> squeezed(ls.push(line)).0 == squeezed(ls).0 + line + seq!['\n'],
        inked(line) ==> squeezed(ls.push(line).push(Seq::empty())).0 == squeezed(ls.push(line)).0
            + seq!['\n'],
        inked(line) ==> squeezed(
            ls.push(line).push(Seq::empty()).push(Seq::empty()),
        ).0 == squeezed(ls.push(line)).0 + seq!['\n', '\n'],
        inked(line) ==> squeezed(
            ls.push(line).push(Seq::empty()).push(Seq::empty()).push(Seq::empty()),
        ).0 == squeezed(ls.push(line)).0 + seq!['\n', '\n'],
{
    lemma_trimmed_inked(line);
    let none = Seq::<char>::empty();
    let a = ls.push(line);
    let b = a.push(none);
    let c = b.push(none);
    let d = c.push(none);
    assert(a.drop_last() =~= ls);
    assert(b.drop_last() =~= a);
    assert(c.drop_last() =~= b);
    assert(d.drop_last() =~= c);
    if inked(line) {
        assert(squeezed(a).0 =~= squeezed(ls).0 + line + seq!['\n']);
        assert(squeezed(b).0 =~= squeezed(a).0 + seq!['\n']);
        assert(squeezed(c).0 =~= squeezed(a).0 + seq!['\n', '\n']);
        assert(squeezed(d).0 =~= squeezed(a).0 + seq!['\n', '\n']);
    }
}

/// A title is put before a text and never takes its place: the text stands behind it whole. It is put
/// there exactly where the first line is no heading already, is less than eighty bytes long, and ends
/// in a colon or is all capitals.
pub proof fn law_titles(s: Seq<char>)
    ensures
        text::ends_in(titled(s), s),
        titled(s) != s <==> text::lines(s).len() > 0 && {
            let first = text::lines(s)[0];
            let bare = text::trimmed(first);
            &&& first.len() > 0 && first[0] != '#'
            &&& bare.len() > 0 && text::byte_length(bare) < 80
            &&& bare[bare.len() - 1] == ':' || forall|i: int|
                0 <= i < bare.len() ==> text::is_upper(#[trigger] bare[i]) || text::is_space(bare[i])
        },
        titled(s) != s ==> titled(s) == seq!['#', ' '] + text::without_back(
            text::trimmed(text::lines(s)[0]),
            ':',
        ) + seq!['\n', '\n'] + s,
{
    reveal_strlit("# ");
    reveal_strlit("\n\n");
    assert("# "@ =~= seq!['#', ' ']);
    assert("\n\n"@ =~= seq!['\n', '\n']);
    let t = titled(s);
    if text::lines(s).len() > 0 {
        let first = text::lines(s)[0];
        if first.len() > 0 && first[0] != '#' {
            assert(text::without_front(first, '#') == first);
            let bare = text::trimmed(first);
            let head = "# "@ + text::without_back(bare, ':') + "\n\n"@;
            assert((head + s).len() > s.len());
            assert((head + s).skip(head.len() as int) =~= s);
        } else if first.len() == 0 {
            lemma_trim_front_part(first);
            lemma_trim_back_part(text::trim_front(first));
        }
    }
    assert(s.skip(0) =~= s);
}

} // verus!
