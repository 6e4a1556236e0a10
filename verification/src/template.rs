//! Config templates, line by line, and how TOML is read.
use vstd::prelude::*;
use vstd::string::*;

use crate::config;
use crate::telemetry;
use crate::text;

verus! {

broadcast use vstd::string::group_string_axioms;

// ---------------------------------------------------------------------------
// Lines
// ---------------------------------------------------------------------------

/// A line of a config template.
#[derive(Debug, Clone, Copy)]
pub enum Line {
    Blank,
    /// A comment.
    Note(&'static str),
    /// The name of the table that the keys behind it belong to.
    Table(&'static str),
    /// A key with a text.
    Text(&'static str, &'static str),
    /// A key that is on or off.
    Switch(&'static str, bool),
    /// A key with a number.
    Number(&'static str, u64),
}

impl Line {
    /// The line as it is written.
    pub open spec fn written(self) -> Seq<char> {
        match self {
            Line::Blank => Seq::empty(),
            Line::Note(words) => "# "@ + words@,
            Line::Table(name) => "["@ + name@ + "]"@,
            Line::Text(key, value) => key@ + " = \""@ + value@ + "\""@,
            Line::Switch(key, on) => key@ + " = "@ + if on {
                "true"@
            } else {
                "false"@
            },
            Line::Number(key, n) => key@ + " = "@ + text::decimal(n as nat),
        }
    }

    fn write(self, out: &mut String)
        ensures
            final(out)@ == (old(out)@ + self.written()).push('\n'),
    {
        match self {
            Line::Blank => {},
            Line::Note(words) => {
                out.append("# ");
                out.append(words);
            },
            Line::Table(name) => {
                out.append("[");
                out.append(name);
                out.append("]");
            },
            Line::Text(key, value) => {
                out.append(key);
                out.append(" = \"");
                out.append(value);
                out.append("\"");
            },
            Line::Switch(key, on) => {
                out.append(key);
                out.append(" = ");
                out.append(
                    if on {
                        "true"
                    } else {
                        "false"
                    },
                );
            },
            Line::Number(key, n) => {
                out.append(key);
                out.append(" = ");
                out.append(text::decimal_text(n).as_str());
            },
        }
        assert(out@ =~= old(out)@ + self.written());
        text::push_char(out, '\n');
    }
}

/// Lines as they are written, each with a line feed.
pub open spec fn written_lines(ls: Seq<Line>) -> Seq<char>
    decreases ls.len(),
{
    if ls.len() == 0 {
        Seq::empty()
    } else {
        (written_lines(ls.drop_last()) + ls.last().written()).push('\n')
    }
}

pub(crate) fn write_lines(ls: &Vec<Line>) -> (r: String)
    ensures
        r@ == written_lines(ls@),
{
    let mut r = String::new();
    for i in 0..ls.len()
        invariant
            r@ == written_lines(ls@.take(i as int)),
    {
        assert(ls@.take(i + 1).drop_last() =~= ls@.take(i as int));
        ls[i].write(&mut r);
    }
    assert(ls@.take(ls@.len() as int) =~= ls@);
    r
}

// ---------------------------------------------------------------------------
// The templates
// ---------------------------------------------------------------------------

/// The lines of the config template of the `ephemeral` profile.
pub open spec fn ephemeral_lines() -> Seq<Line> {
    seq![
        Line::Note("Runtimo config - profile: ephemeral"),
        Line::Note("Optimized for short-lived, throwaway environments (notebooks, CI)."),
        Line::Note("Guards are relaxed - not for service machines."),
        Line::Text("profile", "ephemeral"),
        Line::Blank,
        Line::Note("ephemeral profile - json/plain, WAL batch, guards off"),
        Line::Blank,
        Line::Table("output"),
        Line::Note("json/plain - machine-readable, no decoration"),
        Line::Text("format", "json"),
        Line::Text("renderer", "plain"),
        Line::Blank,
        Line::Table("wal"),
        Line::Note("batch - fewer fsyncs for ephemeral speed"),
        Line::Text("mode", "batch"),
        Line::Switch("enabled", true),
        Line::Blank,
        Line::Table("backup"),
        Line::Note("no backup for ephemeral - speed over safety"),
        Line::Switch("enabled", false),
        Line::Blank,
        Line::Table("guards"),
        Line::Note("DAL=E permissive, blocklist off for ephemeral"),
        Line::Text("dal", "E"),
        Line::Switch("blocklist_enabled", false),
        Line::Blank,
        Line::Table("session"),
        Line::Number("max_sessions", 20),
        Line::Number("timeout_secs", 300),
        Line::Text("on_limit", "continue"),
        Line::Blank,
        Line::Table("telemetry"),
        Line::Switch("enabled", false),
    ]
}

pub(crate) fn list_ephemeral() -> (r: Vec<Line>)
    ensures
        r@ == ephemeral_lines(),
{
    let r = vec![
        Line::Note("Runtimo config - profile: ephemeral"),
        Line::Note("Optimized for short-lived, throwaway environments (notebooks, CI)."),
        Line::Note("Guards are relaxed - not for service machines."),
        Line::Text("profile", "ephemeral"),
        Line::Blank,
        Line::Note("ephemeral profile - json/plain, WAL batch, guards off"),
        Line::Blank,
        Line::Table("output"),
        Line::Note("json/plain - machine-readable, no decoration"),
        Line::Text("format", "json"),
        Line::Text("renderer", "plain"),
        Line::Blank,
        Line::Table("wal"),
        Line::Note("batch - fewer fsyncs for ephemeral speed"),
        Line::Text("mode", "batch"),
        Line::Switch("enabled", true),
        Line::Blank,
        Line::Table("backup"),
        Line::Note("no backup for ephemeral - speed over safety"),
        Line::Switch("enabled", false),
        Line::Blank,
        Line::Table("guards"),
        Line::Note("DAL=E permissive, blocklist off for ephemeral"),
        Line::Text("dal", "E"),
        Line::Switch("blocklist_enabled", false),
        Line::Blank,
        Line::Table("session"),
        Line::Number("max_sessions", 20),
        Line::Number("timeout_secs", 300),
        Line::Text("on_limit", "continue"),
        Line::Blank,
        Line::Table("telemetry"),
        Line::Switch("enabled", false),
    ];
    assert(r@ =~= ephemeral_lines());
    r
}

/// The lines of the config template of the `service` profile.
pub open spec fn service_lines() -> Seq<Line> {
    seq![
        Line::Note("Runtimo config - profile: service"),
        Line::Note("Optimized for long-running service machines."),
        Line::Note("Strict guards - do not disable."),
        Line::Text("profile", "service"),
        Line::Blank,
        Line::Table("output"),
        Line::Note("human/markdown - readable service logs"),
        Line::Text("format", "human"),
        Line::Text("renderer", "markdown"),
        Line::Blank,
        Line::Table("wal"),
        Line::Note("always - fsync every event for durability"),
        Line::Text("mode", "always"),
        Line::Switch("enabled", true),
        Line::Blank,
        Line::Table("backup"),
        Line::Switch("enabled", true),
        Line::Blank,
        Line::Table("guards"),
        Line::Note("DAL=A strict, blocklist on for service"),
        Line::Text("dal", "A"),
        Line::Switch("blocklist_enabled", true),
        Line::Switch("critical_files_enabled", true),
        Line::Switch("path_restriction_enabled", true),
        Line::Blank,
        Line::Table("session"),
        Line::Number("max_sessions", 100),
        Line::Number("timeout_secs", 3600),
        Line::Text("on_limit", "stop"),
        Line::Blank,
        Line::Table("telemetry"),
        Line::Switch("enabled", true),
    ]
}

pub(crate) fn list_service() -> (r: Vec<Line>)
    ensures
        r@ == service_lines(),
{
    let r = vec![
        Line::Note("Runtimo config - profile: service"),
        Line::Note("Optimized for long-running service machines."),
        Line::Note("Strict guards - do not disable."),
        Line::Text("profile", "service"),
        Line::Blank,
        Line::Table("output"),
        Line::Note("human/markdown - readable service logs"),
        Line::Text("format", "human"),
        Line::Text("renderer", "markdown"),
        Line::Blank,
        Line::Table("wal"),
        Line::Note("always - fsync every event for durability"),
        Line::Text("mode", "always"),
        Line::Switch("enabled", true),
        Line::Blank,
        Line::Table("backup"),
        Line::Switch("enabled", true),
        Line::Blank,
        Line::Table("guards"),
        Line::Note("DAL=A strict, blocklist on for service"),
        Line::Text("dal", "A"),
        Line::Switch("blocklist_enabled", true),
        Line::Switch("critical_files_enabled", true),
        Line::Switch("path_restriction_enabled", true),
        Line::Blank,
        Line::Table("session"),
        Line::Number("max_sessions", 100),
        Line::Number("timeout_secs", 3600),
        Line::Text("on_limit", "stop"),
        Line::Blank,
        Line::Table("telemetry"),
        Line::Switch("enabled", true),
    ];
    assert(r@ =~= service_lines());
    r
}

/// The lines of the config template of the `minimal` profile.
pub open spec fn minimal_lines() -> Seq<Line> {
    seq![
        Line::Note("Runtimo config - profile: minimal"),
        Line::Note("Minimal passthrough - no overrides, use builtins."),
        Line::Note("Uncomment to customize."),
        Line::Text("profile", "minimal"),
        Line::Blank,
        Line::Note("allowed_paths = [\"/srv\", \"/opt\"]"),
        Line::Note("dal = \"A\""),
        Line::Blank,
        Line::Note("[output]"),
        Line::Note("format = \"human\""),
        Line::Note("renderer = \"markdown\""),
        Line::Blank,
        Line::Note("[wal]"),
        Line::Note("mode = \"always\""),
        Line::Note("enabled = true"),
        Line::Blank,
        Line::Note("[backup]"),
        Line::Note("enabled = true"),
        Line::Blank,
        Line::Note("[guards]"),
        Line::Note("dal = \"A\""),
        Line::Note("blocklist_enabled = true"),
        Line::Blank,
        Line::Note("[session]"),
        Line::Note("max_sessions = 100"),
        Line::Note("timeout_secs = 3600"),
        Line::Note("on_limit = \"stop\""),
        Line::Blank,
        Line::Note("[telemetry]"),
        Line::Note("enabled = true"),
    ]
}

pub(crate) fn list_minimal() -> (r: Vec<Line>)
    ensures
        r@ == minimal_lines(),
{
    let r = vec![
        Line::Note("Runtimo config - profile: minimal"),
        Line::Note("Minimal passthrough - no overrides, use builtins."),
        Line::Note("Uncomment to customize."),
        Line::Text("profile", "minimal"),
        Line::Blank,
        Line::Note("allowed_paths = [\"/srv\", \"/opt\"]"),
        Line::Note("dal = \"A\""),
        Line::Blank,
        Line::Note("[output]"),
        Line::Note("format = \"human\""),
        Line::Note("renderer = \"markdown\""),
        Line::Blank,
        Line::Note("[wal]"),
        Line::Note("mode = \"always\""),
        Line::Note("enabled = true"),
        Line::Blank,
        Line::Note("[backup]"),
        Line::Note("enabled = true"),
        Line::Blank,
        Line::Note("[guards]"),
        Line::Note("dal = \"A\""),
        Line::Note("blocklist_enabled = true"),
        Line::Blank,
        Line::Note("[session]"),
        Line::Note("max_sessions = 100"),
        Line::Note("timeout_secs = 3600"),
        Line::Note("on_limit = \"stop\""),
        Line::Blank,
        Line::Note("[telemetry]"),
        Line::Note("enabled = true"),
    ];
    assert(r@ =~= minimal_lines());
    r
}

/// The profile whose template is taken for a name.
pub open spec fn template_name(profile: Option<Seq<char>>) -> Seq<char> {
    let p = text::lowered(
        match profile {
            Some(n) => n,
            None => "minimal"@,
        },
    );
    if p == "ephemeral"@ || p == "service"@ {
        p
    } else {
        "minimal"@
    }
}

/// The lines of the template of a profile.
pub open spec fn template_lines(profile: Option<Seq<char>>) -> Seq<Line> {
    if template_name(profile) == "ephemeral"@ {
        ephemeral_lines()
    } else if template_name(profile) == "service"@ {
        service_lines()
    } else {
        minimal_lines()
    }
}

/// The template of a profile.
pub open spec fn template_of(profile: Option<Seq<char>>) -> Seq<char> {
    written_lines(template_lines(profile))
}

// ---------------------------------------------------------------------------
// What a template is
// ---------------------------------------------------------------------------

/// A text that can stand between quotes, or behind the mark of a comment, as it is.
pub open spec fn printable(s: Seq<char>) -> bool {
    forall|i: int| 0 <= i < s.len() ==> ' ' <= #[trigger] s[i] <= '~'
}

/// A text that needs no escape between quotes.
pub open spec fn plain(s: Seq<char>) -> bool {
    printable(s) && forall|i: int| 0 <= i < s.len() ==> #[trigger] s[i] != '"' && s[i] != '\\'
}

/// A key or the name of a table that needs no quotes.
pub open spec fn bare_key(s: Seq<char>) -> bool {
    s.len() > 0 && forall|i: int| 0 <= i < s.len() ==> 'a' <= #[trigger] s[i] <= 'z' || s[i] == '_'
}

impl Line {
    /// The line is one of TOML.
    pub open spec fn sound(self) -> bool {
        match self {
            Line::Blank => true,
            Line::Note(words) => printable(words@),
            Line::Table(name) => bare_key(name@),
            Line::Text(key, value) => bare_key(key@) && plain(value@),
            Line::Switch(key, _) => bare_key(key@),
            Line::Number(key, n) => bare_key(key@) && n <= i64::MAX,
        }
    }
}

/// The key of a line, if it has one.
pub open spec fn key_of(l: Line) -> Option<Seq<char>> {
    match l {
        Line::Text(key, _) => Some(key@),
        Line::Switch(key, _) => Some(key@),
        Line::Number(key, _) => Some(key@),
        _ => None,
    }
}

/// The name of a table, if a line begins one.
pub open spec fn table_of(l: Line) -> Option<Seq<char>> {
    match l {
        Line::Table(name) => Some(name@),
        _ => None,
    }
}

/// No table comes twice, where a key does another table has begun, and no key is that of a table.
pub open spec fn each_once(ls: Seq<Line>) -> bool {
    &&& forall|i: int, j: int|
        0 <= i < ls.len() && 0 <= j < ls.len() && key_of(#[trigger] ls[i]) is Some ==> table_of(
            #[trigger] ls[j],
        ) != key_of(ls[i])
    &&& forall|i: int, j: int|
        0 <= i < j < ls.len() && table_of(#[trigger] ls[i]) is Some ==> table_of(
            #[trigger] ls[j],
        ) != table_of(ls[i])
    &&& forall|i: int, j: int|
        0 <= i < j < ls.len() && key_of(#[trigger] ls[i]) is Some && key_of(#[trigger] ls[j])
            == key_of(ls[i]) ==> exists|t: int| i < t < j && table_of(#[trigger] ls[t]) is Some
}

/// A key with a text stands before any table.
pub open spec fn on_top(ls: Seq<Line>, key: Seq<char>, value: Seq<char>) -> bool {
    exists|i: int|
        {
            &&& 0 <= i < ls.len()
            &&& #[trigger] ls[i] matches Line::Text(k, v)
            &&& k@ == key
            &&& v@ == value
            &&& forall|j: int| 0 <= j < i ==> !(#[trigger] ls[j] is Table)
        }
}

/// A document of plain lines.
pub open spec fn document(ls: Seq<Line>) -> bool {
    each_once(ls) && forall|i: int| 0 <= i < ls.len() ==> (#[trigger] ls[i]).sound()
}

/// The top level of a document: its keys before any table, each with its text where it has one, and
/// its tables.
pub open spec fn top_entries(ls: Seq<Line>) -> Seq<(Seq<char>, Option<Seq<char>>)>
    decreases ls.len(),
{
    if ls.len() == 0 {
        Seq::empty()
    } else {
        let before = top_entries(ls.drop_last());
        let headed = exists|i: int| 0 <= i < ls.len() - 1 && #[trigger] ls[i] is Table;
        match ls.last() {
            Line::Table(name) => before.push((name@, None)),
            Line::Text(key, value) if !headed => before.push((key@, Some(value@))),
            Line::Switch(key, _) if !headed => before.push((key@, None)),
            Line::Number(key, _) if !headed => before.push((key@, None)),
            _ => before,
        }
    }
}

/// What the first entry with a key holds.
pub open spec fn entry_of(
    entries: Seq<(Seq<char>, Option<Seq<char>>)>,
    key: Seq<char>,
) -> Option<Option<Seq<char>>>
    decreases entries.len(),
{
    if entries.len() == 0 {
        None
    } else if entries[0].0 == key {
        Some(entries[0].1)
    } else {
        entry_of(entries.skip(1), key)
    }
}

proof fn lemma_top_entries_grow(ls: Seq<Line>, i: int)
    requires
        0 <= i <= ls.len(),
    ensures
        top_entries(ls.take(i)).is_prefix_of(top_entries(ls)),
    decreases ls.len() - i,
{
    if i == ls.len() {
        assert(ls.take(i) =~= ls);
    } else {
        lemma_top_entries_grow(ls, i + 1);
        assert(ls.take(i + 1).drop_last() =~= ls.take(i));
        let some = top_entries(ls.take(i));
        let more = top_entries(ls.take(i + 1));
        assert(some =~= more.take(some.len() as int));
    }
}

proof fn lemma_profile_on_top(ls: Seq<Line>, q: Seq<char>)
    requires
        ls.len() > 3,
        ls[0] is Note,
        ls[1] is Note,
        ls[2] is Note,
        ls[3] matches Line::Text(k, v) && k@ == "profile"@ && v@ == q,
    ensures
        entry_of(top_entries(ls), "profile"@) == Some(Some(q)),
{
    assert(ls.take(0) =~= Seq::<Line>::empty());
    assert(ls.take(1).drop_last() =~= ls.take(0) && ls.take(1).last() == ls[0]);
    assert(top_entries(ls.take(1)) =~= top_entries(ls.take(0)));
    assert(ls.take(2).drop_last() =~= ls.take(1) && ls.take(2).last() == ls[1]);
    assert(top_entries(ls.take(2)) =~= top_entries(ls.take(1)));
    assert(ls.take(3).drop_last() =~= ls.take(2) && ls.take(3).last() == ls[2]);
    assert(top_entries(ls.take(3)) =~= top_entries(ls.take(2)));
    assert(ls.take(4).drop_last() =~= ls.take(3) && ls.take(4).last() == ls[3]);
    let first = top_entries(ls.take(4));
    assert(first =~= seq![("profile"@, Some(q))]);
    lemma_top_entries_grow(ls, 4);
    assert(top_entries(ls)[0] == first[0]);
}

// ---------------------------------------------------------------------------
// Every template is sound
// ---------------------------------------------------------------------------

/// Where the keys of the template stand, told apart by length and first letter.
spec fn ephemeral_key(i: int, name: Seq<char>) -> bool {
    ||| i == 3 && name.len() == 7 && name[0] == 'p'
    ||| i == 9 && name.len() == 6 && name[0] == 'f'
    ||| i == 10 && name.len() == 8 && name[0] == 'r'
    ||| i == 14 && name.len() == 4 && name[0] == 'm'
    ||| i == 15 && name.len() == 7 && name[0] == 'e'
    ||| i == 19 && name.len() == 7 && name[0] == 'e'
    ||| i == 23 && name.len() == 3 && name[0] == 'd'
    ||| i == 24 && name.len() == 17 && name[0] == 'b'
    ||| i == 27 && name.len() == 12 && name[0] == 'm'
    ||| i == 28 && name.len() == 12 && name[0] == 't'
    ||| i == 29 && name.len() == 8 && name[0] == 'o'
    ||| i == 32 && name.len() == 7 && name[0] == 'e'
}

/// Where the tables of the template stand, told apart by length and first letter.
spec fn ephemeral_table(i: int, name: Seq<char>) -> bool {
    ||| i == 7 && name.len() == 6 && name[0] == 'o'
    ||| i == 12 && name.len() == 3 && name[0] == 'w'
    ||| i == 17 && name.len() == 6 && name[0] == 'b'
    ||| i == 21 && name.len() == 6 && name[0] == 'g'
    ||| i == 26 && name.len() == 7 && name[0] == 's'
    ||| i == 31 && name.len() == 9 && name[0] == 't'
}

proof fn lemma_ephemeral_once()
    ensures
        each_once(ephemeral_lines()),
{
    let ls = ephemeral_lines();
    assert("backup"@.len() == 6 && "backup"@[0] == 'b') by {
        reveal_strlit("backup");
    }
    assert("blocklist_enabled"@.len() == 17 && "blocklist_enabled"@[0] == 'b') by {
        reveal_strlit("blocklist_enabled");
    }
    assert("dal"@.len() == 3 && "dal"@[0] == 'd') by {
        reveal_strlit("dal");
    }
    assert("enabled"@.len() == 7 && "enabled"@[0] == 'e') by {
        reveal_strlit("enabled");
    }
    assert("format"@.len() == 6 && "format"@[0] == 'f') by {
        reveal_strlit("format");
    }
    assert("guards"@.len() == 6 && "guards"@[0] == 'g') by {
        reveal_strlit("guards");
    }
    assert("max_sessions"@.len() == 12 && "max_sessions"@[0] == 'm') by {
        reveal_strlit("max_sessions");
    }
    assert("mode"@.len() == 4 && "mode"@[0] == 'm') by {
        reveal_strlit("mode");
    }
    assert("on_limit"@.len() == 8 && "on_limit"@[0] == 'o') by {
        reveal_strlit("on_limit");
    }
    assert("output"@.len() == 6 && "output"@[0] == 'o') by {
        reveal_strlit("output");
    }
    assert("profile"@.len() == 7 && "profile"@[0] == 'p') by {
        reveal_strlit("profile");
    }
    assert("renderer"@.len() == 8 && "renderer"@[0] == 'r') by {
        reveal_strlit("renderer");
    }
    assert("session"@.len() == 7 && "session"@[0] == 's') by {
        reveal_strlit("session");
    }
    assert("telemetry"@.len() == 9 && "telemetry"@[0] == 't') by {
        reveal_strlit("telemetry");
    }
    assert("timeout_secs"@.len() == 12 && "timeout_secs"@[0] == 't') by {
        reveal_strlit("timeout_secs");
    }
    assert("wal"@.len() == 3 && "wal"@[0] == 'w') by {
        reveal_strlit("wal");
    }
    assert forall|i: int| 0 <= i < ls.len() && key_of(#[trigger] ls[i]) is Some implies ephemeral_key(
        i,
        key_of(ls[i])->0,
    ) by {}
    assert forall|i: int| 0 <= i < ls.len() && table_of(#[trigger] ls[i]) is Some implies ephemeral_table(
        i,
        table_of(ls[i])->0,
    ) by {}
    assert(table_of(ls[17]) is Some && table_of(ls[21]) is Some);
    lemma_ephemeral_apart(ls);
}

proof fn lemma_ephemeral_apart(ls: Seq<Line>)
    requires
        forall|i: int|
            0 <= i < ls.len() && key_of(#[trigger] ls[i]) is Some ==> ephemeral_key(i, key_of(ls[i])->0),
        forall|i: int|
            0 <= i < ls.len() && table_of(#[trigger] ls[i]) is Some ==> ephemeral_table(
                i,
                table_of(ls[i])->0,
            ),
        table_of(ls[17]) is Some,
        table_of(ls[21]) is Some,
    ensures
        each_once(ls),
{
    assert forall|i: int, j: int|
        0 <= i < j < ls.len() && key_of(#[trigger] ls[i]) is Some && key_of(#[trigger] ls[j])
            == key_of(ls[i]) implies exists|t: int|
        i < t < j && table_of(#[trigger] ls[t]) is Some by {
        assert(i < 17 < j || i < 21 < j);
    }
}

proof fn lemma_ephemeral_lines()
    ensures
        forall|i: int| 0 <= i < ephemeral_lines().len() ==> (#[trigger] ephemeral_lines()[i]).sound(),
        on_top(ephemeral_lines(), "profile"@, "ephemeral"@),
        entry_of(top_entries(ephemeral_lines()), "profile"@) == Some(Some("ephemeral"@)),
{
    assert(printable("Runtimo config - profile: ephemeral"@)) by {
        reveal_strlit("Runtimo config - profile: ephemeral");
    }
    assert(printable("Optimized for short-lived, throwaway environments (notebooks, CI)."@)) by {
        reveal_strlit("Optimized for short-lived, throwaway environments (notebooks, CI).");
    }
    assert(printable("Guards are relaxed - not for service machines."@)) by {
        reveal_strlit("Guards are relaxed - not for service machines.");
    }
    assert(bare_key("profile"@)) by {
        reveal_strlit("profile");
    }
    assert(plain("ephemeral"@)) by {
        reveal_strlit("ephemeral");
    }
    assert(printable("ephemeral profile - json/plain, WAL batch, guards off"@)) by {
        reveal_strlit("ephemeral profile - json/plain, WAL batch, guards off");
    }
    assert(bare_key("output"@)) by {
        reveal_strlit("output");
    }
    assert(printable("json/plain - machine-readable, no decoration"@)) by {
        reveal_strlit("json/plain - machine-readable, no decoration");
    }
    assert(bare_key("format"@)) by {
        reveal_strlit("format");
    }
    assert(plain("json"@)) by {
        reveal_strlit("json");
    }
    assert(bare_key("renderer"@)) by {
        reveal_strlit("renderer");
    }
    assert(plain("plain"@)) by {
        reveal_strlit("plain");
    }
    assert(bare_key("wal"@)) by {
        reveal_strlit("wal");
    }
    assert(printable("batch - fewer fsyncs for ephemeral speed"@)) by {
        reveal_strlit("batch - fewer fsyncs for ephemeral speed");
    }
    assert(bare_key("mode"@)) by {
        reveal_strlit("mode");
    }
    assert(plain("batch"@)) by {
        reveal_strlit("batch");
    }
    assert(bare_key("enabled"@)) by {
        reveal_strlit("enabled");
    }
    assert(bare_key("backup"@)) by {
        reveal_strlit("backup");
    }
    assert(printable("no backup for ephemeral - speed over safety"@)) by {
        reveal_strlit("no backup for ephemeral - speed over safety");
    }
    assert(bare_key("guards"@)) by {
        reveal_strlit("guards");
    }
    assert(printable("DAL=E permissive, blocklist off for ephemeral"@)) by {
        reveal_strlit("DAL=E permissive, blocklist off for ephemeral");
    }
    assert(bare_key("dal"@)) by {
        reveal_strlit("dal");
    }
    assert(plain("E"@)) by {
        reveal_strlit("E");
    }
    assert(bare_key("blocklist_enabled"@)) by {
        reveal_strlit("blocklist_enabled");
    }
    assert(bare_key("session"@)) by {
        reveal_strlit("session");
    }
    assert(bare_key("max_sessions"@)) by {
        reveal_strlit("max_sessions");
    }
    assert(bare_key("timeout_secs"@)) by {
        reveal_strlit("timeout_secs");
    }
    assert(bare_key("on_limit"@)) by {
        reveal_strlit("on_limit");
    }
    assert(plain("continue"@)) by {
        reveal_strlit("continue");
    }
    assert(bare_key("telemetry"@)) by {
        reveal_strlit("telemetry");
    }
    let ls = ephemeral_lines();
    assert(ls[3] == Line::Text("profile", "ephemeral"));
    lemma_profile_on_top(ls, "ephemeral"@);
}

/// Where the keys of the template stand, told apart by length and first letter.
spec fn service_key(i: int, name: Seq<char>) -> bool {
    ||| i == 3 && name.len() == 7 && name[0] == 'p'
    ||| i == 7 && name.len() == 6 && name[0] == 'f'
    ||| i == 8 && name.len() == 8 && name[0] == 'r'
    ||| i == 12 && name.len() == 4 && name[0] == 'm'
    ||| i == 13 && name.len() == 7 && name[0] == 'e'
    ||| i == 16 && name.len() == 7 && name[0] == 'e'
    ||| i == 20 && name.len() == 3 && name[0] == 'd'
    ||| i == 21 && name.len() == 17 && name[0] == 'b'
    ||| i == 22 && name.len() == 22 && name[0] == 'c'
    ||| i == 23 && name.len() == 24 && name[0] == 'p'
    ||| i == 26 && name.len() == 12 && name[0] == 'm'
    ||| i == 27 && name.len() == 12 && name[0] == 't'
    ||| i == 28 && name.len() == 8 && name[0] == 'o'
    ||| i == 31 && name.len() == 7 && name[0] == 'e'
}

/// Where the tables of the template stand, told apart by length and first letter.
spec fn service_table(i: int, name: Seq<char>) -> bool {
    ||| i == 5 && name.len() == 6 && name[0] == 'o'
    ||| i == 10 && name.len() == 3 && name[0] == 'w'
    ||| i == 15 && name.len() == 6 && name[0] == 'b'
    ||| i == 18 && name.len() == 6 && name[0] == 'g'
    ||| i == 25 && name.len() == 7 && name[0] == 's'
    ||| i == 30 && name.len() == 9 && name[0] == 't'
}

proof fn lemma_service_once()
    ensures
        each_once(service_lines()),
{
    let ls = service_lines();
    assert("backup"@.len() == 6 && "backup"@[0] == 'b') by {
        reveal_strlit("backup");
    }
    assert("blocklist_enabled"@.len() == 17 && "blocklist_enabled"@[0] == 'b') by {
        reveal_strlit("blocklist_enabled");
    }
    assert("critical_files_enabled"@.len() == 22 && "critical_files_enabled"@[0] == 'c') by {
        reveal_strlit("critical_files_enabled");
    }
    assert("dal"@.len() == 3 && "dal"@[0] == 'd') by {
        reveal_strlit("dal");
    }
    assert("enabled"@.len() == 7 && "enabled"@[0] == 'e') by {
        reveal_strlit("enabled");
    }
    assert("format"@.len() == 6 && "format"@[0] == 'f') by {
        reveal_strlit("format");
    }
    assert("guards"@.len() == 6 && "guards"@[0] == 'g') by {
        reveal_strlit("guards");
    }
    assert("max_sessions"@.len() == 12 && "max_sessions"@[0] == 'm') by {
        reveal_strlit("max_sessions");
    }
    assert("mode"@.len() == 4 && "mode"@[0] == 'm') by {
        reveal_strlit("mode");
    }
    assert("on_limit"@.len() == 8 && "on_limit"@[0] == 'o') by {
        reveal_strlit("on_limit");
    }
    assert("output"@.len() == 6 && "output"@[0] == 'o') by {
        reveal_strlit("output");
    }
    assert("path_restriction_enabled"@.len() == 24 && "path_restriction_enabled"@[0] == 'p') by {
        reveal_strlit("path_restriction_enabled");
    }
    assert("profile"@.len() == 7 && "profile"@[0] == 'p') by {
        reveal_strlit("profile");
    }
    assert("renderer"@.len() == 8 && "renderer"@[0] == 'r') by {
        reveal_strlit("renderer");
    }
    assert("session"@.len() == 7 && "session"@[0] == 's') by {
        reveal_strlit("session");
    }
    assert("telemetry"@.len() == 9 && "telemetry"@[0] == 't') by {
        reveal_strlit("telemetry");
    }
    assert("timeout_secs"@.len() == 12 && "timeout_secs"@[0] == 't') by {
        reveal_strlit("timeout_secs");
    }
    assert("wal"@.len() == 3 && "wal"@[0] == 'w') by {
        reveal_strlit("wal");
    }
    assert forall|i: int| 0 <= i < ls.len() && key_of(#[trigger] ls[i]) is Some implies service_key(
        i,
        key_of(ls[i])->0,
    ) by {}
    assert forall|i: int| 0 <= i < ls.len() && table_of(#[trigger] ls[i]) is Some implies service_table(
        i,
        table_of(ls[i])->0,
    ) by {}
    assert(table_of(ls[15]) is Some && table_of(ls[18]) is Some);
    lemma_service_apart(ls);
}

proof fn lemma_service_apart(ls: Seq<Line>)
    requires
        forall|i: int|
            0 <= i < ls.len() && key_of(#[trigger] ls[i]) is Some ==> service_key(i, key_of(ls[i])->0),
        forall|i: int|
            0 <= i < ls.len() && table_of(#[trigger] ls[i]) is Some ==> service_table(
                i,
                table_of(ls[i])->0,
            ),
        table_of(ls[15]) is Some,
        table_of(ls[18]) is Some,
    ensures
        each_once(ls),
{
    assert forall|i: int, j: int|
        0 <= i < j < ls.len() && key_of(#[trigger] ls[i]) is Some && key_of(#[trigger] ls[j])
            == key_of(ls[i]) implies exists|t: int|
        i < t < j && table_of(#[trigger] ls[t]) is Some by {
        assert(i < 15 < j || i < 18 < j);
    }
}

proof fn lemma_service_lines()
    ensures
        forall|i: int| 0 <= i < service_lines().len() ==> (#[trigger] service_lines()[i]).sound(),
        on_top(service_lines(), "profile"@, "service"@),
        entry_of(top_entries(service_lines()), "profile"@) == Some(Some("service"@)),
{
    assert(printable("Runtimo config - profile: service"@)) by {
        reveal_strlit("Runtimo config - profile: service");
    }
    assert(printable("Optimized for long-running service machines."@)) by {
        reveal_strlit("Optimized for long-running service machines.");
    }
    assert(printable("Strict guards - do not disable."@)) by {
        reveal_strlit("Strict guards - do not disable.");
    }
    assert(bare_key("profile"@)) by {
        reveal_strlit("profile");
    }
    assert(plain("service"@)) by {
        reveal_strlit("service");
    }
    assert(bare_key("output"@)) by {
        reveal_strlit("output");
    }
    assert(printable("human/markdown - readable service logs"@)) by {
        reveal_strlit("human/markdown - readable service logs");
    }
    assert(bare_key("format"@)) by {
        reveal_strlit("format");
    }
    assert(plain("human"@)) by {
        reveal_strlit("human");
    }
    assert(bare_key("renderer"@)) by {
        reveal_strlit("renderer");
    }
    assert(plain("markdown"@)) by {
        reveal_strlit("markdown");
    }
    assert(bare_key("wal"@)) by {
        reveal_strlit("wal");
    }
    assert(printable("always - fsync every event for durability"@)) by {
        reveal_strlit("always - fsync every event for durability");
    }
    assert(bare_key("mode"@)) by {
        reveal_strlit("mode");
    }
    assert(plain("always"@)) by {
        reveal_strlit("always");
    }
    assert(bare_key("enabled"@)) by {
        reveal_strlit("enabled");
    }
    assert(bare_key("backup"@)) by {
        reveal_strlit("backup");
    }
    assert(bare_key("guards"@)) by {
        reveal_strlit("guards");
    }
    assert(printable("DAL=A strict, blocklist on for service"@)) by {
        reveal_strlit("DAL=A strict, blocklist on for service");
    }
    assert(bare_key("dal"@)) by {
        reveal_strlit("dal");
    }
    assert(plain("A"@)) by {
        reveal_strlit("A");
    }
    assert(bare_key("blocklist_enabled"@)) by {
        reveal_strlit("blocklist_enabled");
    }
    assert(bare_key("critical_files_enabled"@)) by {
        reveal_strlit("critical_files_enabled");
    }
    assert(bare_key("path_restriction_enabled"@)) by {
        reveal_strlit("path_restriction_enabled");
    }
    assert(bare_key("session"@)) by {
        reveal_strlit("session");
    }
    assert(bare_key("max_sessions"@)) by {
        reveal_strlit("max_sessions");
    }
    assert(bare_key("timeout_secs"@)) by {
        reveal_strlit("timeout_secs");
    }
    assert(bare_key("on_limit"@)) by {
        reveal_strlit("on_limit");
    }
    assert(plain("stop"@)) by {
        reveal_strlit("stop");
    }
    assert(bare_key("telemetry"@)) by {
        reveal_strlit("telemetry");
    }
    let ls = service_lines();
    assert(ls[3] == Line::Text("profile", "service"));
    lemma_profile_on_top(ls, "service"@);
}

proof fn lemma_minimal_once()
    ensures
        each_once(minimal_lines()),
{
    let ls = minimal_lines();
    assert forall|i: int| 0 <= i < ls.len() implies key_of(#[trigger] ls[i]) is None || i == 3 by {}
    assert forall|i: int| 0 <= i < ls.len() implies table_of(#[trigger] ls[i]) is None by {}
}

proof fn lemma_minimal_lines()
    ensures
        forall|i: int| 0 <= i < minimal_lines().len() ==> (#[trigger] minimal_lines()[i]).sound(),
        on_top(minimal_lines(), "profile"@, "minimal"@),
        entry_of(top_entries(minimal_lines()), "profile"@) == Some(Some("minimal"@)),
{
    assert(printable("Runtimo config - profile: minimal"@)) by {
        reveal_strlit("Runtimo config - profile: minimal");
    }
    assert(printable("Minimal passthrough - no overrides, use builtins."@)) by {
        reveal_strlit("Minimal passthrough - no overrides, use builtins.");
    }
    assert(printable("Uncomment to customize."@)) by {
        reveal_strlit("Uncomment to customize.");
    }
    assert(bare_key("profile"@)) by {
        reveal_strlit("profile");
    }
    assert(plain("minimal"@)) by {
        reveal_strlit("minimal");
    }
    assert(printable("allowed_paths = [\"/srv\", \"/opt\"]"@)) by {
        reveal_strlit("allowed_paths = [\"/srv\", \"/opt\"]");
    }
    assert(printable("dal = \"A\""@)) by {
        reveal_strlit("dal = \"A\"");
    }
    assert(printable("[output]"@)) by {
        reveal_strlit("[output]");
    }
    assert(printable("format = \"human\""@)) by {
        reveal_strlit("format = \"human\"");
    }
    assert(printable("renderer = \"markdown\""@)) by {
        reveal_strlit("renderer = \"markdown\"");
    }
    assert(printable("[wal]"@)) by {
        reveal_strlit("[wal]");
    }
    assert(printable("mode = \"always\""@)) by {
        reveal_strlit("mode = \"always\"");
    }
    assert(printable("enabled = true"@)) by {
        reveal_strlit("enabled = true");
    }
    assert(printable("[backup]"@)) by {
        reveal_strlit("[backup]");
    }
    assert(printable("[guards]"@)) by {
        reveal_strlit("[guards]");
    }
    assert(printable("blocklist_enabled = true"@)) by {
        reveal_strlit("blocklist_enabled = true");
    }
    assert(printable("[session]"@)) by {
        reveal_strlit("[session]");
    }
    assert(printable("max_sessions = 100"@)) by {
        reveal_strlit("max_sessions = 100");
    }
    assert(printable("timeout_secs = 3600"@)) by {
        reveal_strlit("timeout_secs = 3600");
    }
    assert(printable("on_limit = \"stop\""@)) by {
        reveal_strlit("on_limit = \"stop\"");
    }
    assert(printable("[telemetry]"@)) by {
        reveal_strlit("[telemetry]");
    }
    let ls = minimal_lines();
    assert(ls[3] == Line::Text("profile", "minimal"));
    lemma_profile_on_top(ls, "minimal"@);
}

pub proof fn lemma_profile_names_differ()
    ensures
        "minimal"@ != "ephemeral"@,
        "minimal"@ != "service"@,
        "ephemeral"@ != "service"@,
{
    reveal_strlit("minimal");
    reveal_strlit("ephemeral");
    reveal_strlit("service");
    assert("minimal"@[0] == 'm' && "ephemeral"@[0] == 'e' && "service"@[0] == 's');
}

proof fn lemma_pieces_of_sum(s: Seq<char>, t: Seq<char>)
    requires
        printable(t),
    ensures
        text::pieces(s + t, '\n') == text::pieces(s, '\n').update(
            text::pieces(s, '\n').len() - 1,
            text::pieces(s, '\n').last() + t,
        ),
    decreases t.len(),
{
    let p = text::pieces(s, '\n');
    text::lemma_pieces_nonempty(s, '\n');
    if t.len() == 0 {
        assert(s + t =~= s);
        assert(p.last() + t =~= p.last());
        assert(p.update(p.len() - 1, p.last()) =~= p);
    } else {
        let rest = t.drop_last();
        assert forall|i: int| 0 <= i < rest.len() implies ' ' <= #[trigger] rest[i] <= '~' by {
            assert(rest[i] == t[i]);
        }
        lemma_pieces_of_sum(s, rest);
        assert((s + t).drop_last() =~= s + rest);
        assert((s + t).last() == t[t.len() - 1]);
        assert((p.last() + rest).push(t.last()) =~= p.last() + t);
        assert(text::pieces(s + t, '\n') =~= p.update(p.len() - 1, p.last() + t));
    }
}

proof fn lemma_decimal_printable(n: nat)
    ensures
        printable(text::decimal(n)),
    decreases n,
{
    if n >= 10 {
        lemma_decimal_printable(n / 10);
    }
}

proof fn lemma_written_printable(l: Line)
    requires
        l.sound(),
    ensures
        printable(l.written()),
{
    reveal_strlit("# ");
    reveal_strlit("[");
    reveal_strlit("]");
    reveal_strlit(" = ");
    reveal_strlit(" = \"");
    reveal_strlit("\"");
    reveal_strlit("true");
    reveal_strlit("false");
    if let Line::Number(_, n) = l {
        lemma_decimal_printable(n as nat);
    }
}

proof fn lemma_lines_of_written(ls: Seq<Line>)
    requires
        forall|i: int| 0 <= i < ls.len() ==> (#[trigger] ls[i]).sound(),
    ensures
        text::pieces(written_lines(ls), '\n') == ls.map_values(|l: Line| l.written()).push(
            Seq::empty(),
        ),
    decreases ls.len(),
{
    let shown = ls.map_values(|l: Line| l.written());
    if ls.len() == 0 {
        assert(shown.push(Seq::<char>::empty()) =~= seq![Seq::<char>::empty()]);
    } else {
        let rest = ls.drop_last();
        let before = written_lines(rest);
        let line = ls.last().written();
        assert forall|i: int| 0 <= i < rest.len() implies (#[trigger] rest[i]).sound() by {
            assert(rest[i] == ls[i]);
        }
        lemma_lines_of_written(rest);
        lemma_written_printable(ls.last());
        lemma_pieces_of_sum(before, line);
        assert((before + line).push('\n').drop_last() =~= before + line);
        assert(Seq::<char>::empty() + line =~= line);
        assert(text::pieces(written_lines(ls), '\n') =~= shown.push(Seq::empty()));
    }
}

/// Every template is TOML: it is written line by line, each line is empty, a comment, the name of a
/// table or a key with a plain value, and no table and no key of a table comes twice. It names its
/// profile before any table, and so at the top level of the document.
pub proof fn law_templates_are_sound(profile: Option<Seq<char>>)
    ensures
        text::lines(template_of(profile)) == template_lines(profile).map_values(
            |l: Line| l.written(),
        ),
        forall|i: int|
            0 <= i < template_lines(profile).len() ==> (#[trigger] template_lines(
                profile,
            )[i]).sound(),
        each_once(template_lines(profile)),
        on_top(template_lines(profile), "profile"@, template_name(profile)),
        entry_of(top_entries(template_lines(profile)), "profile"@) == Some(
            Some(template_name(profile)),
        ),
{
    lemma_profile_names_differ();
    lemma_ephemeral_once();
    lemma_service_once();
    lemma_minimal_once();
    lemma_ephemeral_lines();
    lemma_service_lines();
    lemma_minimal_lines();
    let ls = template_lines(profile);
    lemma_lines_of_written(ls);
    let shown = ls.map_values(|l: Line| l.written());
    let p = text::pieces(template_of(profile), '\n');
    assert(p.drop_last() =~= shown);
    assert forall|i: int| 0 <= i < shown.len() implies text::strip_return(#[trigger] shown[i])
        == shown[i] by {
        lemma_written_printable(ls[i]);
        assert(shown[i].len() > 0 ==> shown[i][shown[i].len() - 1] != '\r');
    }
    assert(text::lines(template_of(profile)) =~= shown);
}

// ---------------------------------------------------------------------------
// Reading TOML
// ---------------------------------------------------------------------------

/// The models of the entries at the top level of a document.
pub open spec fn entries_view(v: Seq<(String, Option<String>)>) -> Seq<
    (Seq<char>, Option<Seq<char>>),
> {
    v.map_values(|e: (String, Option<String>)| (e.0@, telemetry::text_view(e.1)))
}

/// The top level of a TOML document as the `toml` crate reads it, each key with its text where it
/// has one, or the words of its error.
pub uninterp spec fn toml_top(s: Seq<char>) -> Result<
    Seq<(Seq<char>, Option<Seq<char>>)>,
    Seq<char>,
>;

/// Reads the top level of a TOML document, by the `FromStr` of `toml::Table`. The result is a
/// function of the text alone and is named [`toml_top`]. Of TOML itself one thing is claimed: a
/// document of plain lines, in which no table and no key of a table comes twice, can be read, and
/// its top level holds the keys before any table, with their texts, and the tables.
#[verifier::external_body]
fn read_top(content: &str) -> (r: Result<Vec<(String, Option<String>)>, String>)
    ensures
        match r {
            Ok(entries) => toml_top(content@) == Ok::<
                Seq<(Seq<char>, Option<Seq<char>>)>,
                Seq<char>,
            >(entries_view(entries@)),
            Err(words) => toml_top(content@) == Err::<
                Seq<(Seq<char>, Option<Seq<char>>)>,
                Seq<char>,
            >(words@),
        },
        forall|ls: Seq<Line>, key: Seq<char>|
            #![trigger written_lines(ls), entry_of(top_entries(ls), key)]
            content@ == written_lines(ls) && document(ls) ==> r is Ok && entry_of(
                entries_view(r->Ok_0@),
                key,
            ) == entry_of(top_entries(ls), key),
{
    let table: toml::Table = content.parse().map_err(|e: toml::de::Error| e.to_string())?;
    Ok(table.into_iter().map(|(k, v)| (k, v.as_str().map(|s| s.to_owned()))).collect())
}

/// The keys of some entries.
pub open spec fn keys_in(entries: Seq<(Seq<char>, Option<Seq<char>>)>) -> Seq<Seq<char>> {
    entries.map_values(|e: (Seq<char>, Option<Seq<char>>)| e.0)
}

/// The keys at the top level of the text of a config file that mean nothing, or why it cannot be
/// read.
pub fn unknown_keys_in(content: &str) -> (r: Result<Vec<String>, String>)
    ensures
        match r {
            Ok(keys) => toml_top(content@) matches Ok(top) && text::texts(keys@) == config::unknown_of(
                keys_in(top),
            ),
            Err(words) => toml_top(content@) matches Err(e) && words@ == e,
        },
{
    let entries = match read_top(content) {
        Ok(v) => v,
        Err(words) => {
            return Err(words);
        },
    };
    let ghost top = entries_view(entries@);
    let mut keys: Vec<String> = Vec::new();
    for i in 0..entries.len()
        invariant
            top == entries_view(entries@),
            text::texts(keys@) == keys_in(top).take(i as int),
    {
        let ghost before = keys@;
        keys.push(entries[i].0.clone());
        assert(text::texts(keys@) =~= text::texts(before).push(entries@[i as int].0@));
        assert(keys_in(top).take(i + 1) =~= keys_in(top).take(i as int).push(
            keys_in(top)[i as int],
        ));
    }
    assert(keys_in(top).take(entries@.len() as int) =~= keys_in(top));
    Ok(config::unknown_keys(&keys))
}

/// The profile that the text of a new config file names when it is read back, or that it cannot be
/// read. Every template can be read, and names its profile.
pub fn read_back(written: &str) -> (r: Result<Option<String>, String>)
    ensures
        match r {
            Ok(profile) => toml_top(written@) matches Ok(top) && telemetry::text_view(profile) == (
            match entry_of(top, "profile"@) {
                Some(text) => text,
                None => None,
            }),
            Err(m) => toml_top(written@) matches Err(e) && m@
                == "generated config failed to parse: "@ + e,
        },
        forall|profile: Option<Seq<char>>| #[trigger]
            template_of(profile) == written@ ==> r is Ok && telemetry::text_view(r->Ok_0) == Some(
                template_name(profile),
            ),
{
    let read = read_top(written);
    proof {
        assert forall|profile: Option<Seq<char>>| #[trigger]
            template_of(profile) == written@ implies read is Ok && entry_of(
            entries_view(read->Ok_0@),
            "profile"@,
        ) == Some(Some(template_name(profile))) by {
            law_templates_are_sound(profile);
            assert(document(template_lines(profile)));
        }
    }
    let entries = match read {
        Ok(v) => v,
        Err(words) => {
            let mut m = "generated config failed to parse: ".to_owned();
            m.append(words.as_str());
            return Err(m);
        },
    };
    let ghost all = entries_view(entries@);
    assert(all.skip(0) =~= all);
    for i in 0..entries.len()
        invariant
            all == entries_view(entries@),
            entry_of(all.skip(i as int), "profile"@) == entry_of(all, "profile"@),
            read == Ok::<Vec<(String, Option<String>)>, String>(entries),
            toml_top(written@) == Ok::<Seq<(Seq<char>, Option<Seq<char>>)>, Seq<char>>(all),
            forall|profile: Option<Seq<char>>| #[trigger]
                template_of(profile) == written@ ==> entry_of(all, "profile"@) == Some(
                    Some(template_name(profile)),
                ),
    {
        let ghost rest = all.skip(i as int);
        assert(rest[0] == all[i as int]);
        assert(rest.skip(1) =~= all.skip(i + 1));
        if text::same(entries[i].0.as_str(), "profile") {
            return Ok(telemetry::clone_text(&entries[i].1));
        }
    }
    assert(all.skip(entries@.len() as int).len() == 0);
    Ok(None)
}


// ---------------------------------------------------------------------------
// What the templates say
// ---------------------------------------------------------------------------

/// Each kind of line has its own form.
pub proof fn law_forms_of_lines(a: &'static str, b: &'static str, on: bool, n: u64)
    ensures
        Line::Blank.written() == Seq::<char>::empty(),
        Line::Note(a).written() == "# "@ + a@,
        Line::Table(a).written() == "["@ + a@ + "]"@,
        Line::Text(a, b).written() == a@ + " = \""@ + b@ + "\""@,
        on ==> Line::Switch(a, on).written() == a@ + " = "@ + "true"@,
        !on ==> Line::Switch(a, on).written() == a@ + " = "@ + "false"@,
        Line::Number(a, n).written() == a@ + " = "@ + text::decimal(n as nat),
{
}

/// Lines are written one below the other, each ended.
pub proof fn law_lines_written(a: Seq<Line>, b: Seq<Line>, l: Line)
    ensures
        written_lines(a + b) == written_lines(a) + written_lines(b),
        written_lines(seq![l]) == l.written().push('\n'),
    decreases b.len(),
{
    assert(seq![l].drop_last() =~= Seq::<Line>::empty());
    assert(written_lines(seq![l].drop_last()) == Seq::<char>::empty());
    assert(Seq::<char>::empty() + l.written() =~= l.written());
    if b.len() == 0 {
        assert(a + b =~= a);
        assert(written_lines(a) + written_lines(b) =~= written_lines(a));
    } else {
        law_lines_written(a, b.drop_last(), l);
        assert((a + b).drop_last() =~= a + b.drop_last());
        assert((a + b).last() == b.last());
        let x = written_lines(b.drop_last());
        let y = b.last().written();
        assert((written_lines(a) + x + y).push('\n') =~= written_lines(a) + (x + y).push('\n'));
    }
}

/// A profile is looked up by its name in lower case; what is no profile, and no profile at all, is
/// the minimal one.
pub proof fn law_names_of_templates(name: Seq<char>)
    ensures
        text::lowered(name) == "ephemeral"@ ==> template_name(Some(name)) == "ephemeral"@,
        text::lowered(name) == "service"@ ==> template_name(Some(name)) == "service"@,
        text::lowered(name) != "ephemeral"@ && text::lowered(name) != "service"@ ==> template_name(
            Some(name),
        ) == "minimal"@,
        template_name(Some(name)) == "ephemeral"@ ==> template_lines(Some(name))
            == ephemeral_lines(),
        template_name(Some(name)) == "service"@ ==> template_lines(Some(name)) == service_lines(),
        template_name(Some(name)) == "minimal"@ ==> template_lines(Some(name)) == minimal_lines(),
        template_of(Some(name)) == written_lines(template_lines(Some(name))),
{
    reveal_strlit("ephemeral");
    reveal_strlit("service");
    reveal_strlit("minimal");
    assert("service"@[0] == 's' && "minimal"@[0] == 'm' && "ephemeral"@.len() == 9);
}

/// A line stands in a table: its heading is the last one above the line.
pub open spec fn stands_in(ls: Seq<Line>, table: Line, l: Line) -> bool {
    exists|i: int, j: int| #[trigger] headed_by(ls, i, j) && ls[i] == table && ls[j] == l
}

/// The line `j` stands below the heading `i`, and no other heading between them.
pub open spec fn headed_by(ls: Seq<Line>, i: int, j: int) -> bool {
    &&& 0 <= i < j < ls.len()
    &&& ls[i] is Table
    &&& forall|k: int| i < k < j ==> !(#[trigger] ls[k] is Table)
}

/// What the template for throwaway machines sets: plain output, a log in batches, no backup, the
/// most lenient level, no blocklist, few and short sessions, no telemetry.
pub proof fn law_ephemeral_settings()
    ensures
        ({
            let ls = ephemeral_lines();
            &&& stands_in(ls, Line::Table("output"), Line::Text("format", "json"))
            &&& stands_in(ls, Line::Table("output"), Line::Text("renderer", "plain"))
            &&& stands_in(ls, Line::Table("wal"), Line::Text("mode", "batch"))
            &&& stands_in(ls, Line::Table("wal"), Line::Switch("enabled", true))
            &&& stands_in(ls, Line::Table("backup"), Line::Switch("enabled", false))
            &&& stands_in(ls, Line::Table("guards"), Line::Text("dal", "E"))
            &&& stands_in(ls, Line::Table("guards"), Line::Switch("blocklist_enabled", false))
            &&& stands_in(ls, Line::Table("session"), Line::Number("max_sessions", 20))
            &&& stands_in(ls, Line::Table("session"), Line::Number("timeout_secs", 300))
            &&& stands_in(ls, Line::Table("session"), Line::Text("on_limit", "continue"))
            &&& stands_in(ls, Line::Table("telemetry"), Line::Switch("enabled", false))
        }),
{
    let ls = ephemeral_lines();
    assert(headed_by(ls, 7, 9));
    assert(headed_by(ls, 7, 10));
    assert(headed_by(ls, 12, 14));
    assert(headed_by(ls, 12, 15));
    assert(headed_by(ls, 17, 19));
    assert(headed_by(ls, 21, 23));
    assert(headed_by(ls, 21, 24));
    assert(headed_by(ls, 26, 27));
    assert(headed_by(ls, 26, 28));
    assert(headed_by(ls, 26, 29));
    assert(headed_by(ls, 31, 32));
}

/// What the template for service machines sets: readable output, every event on disk, backups, the
/// strictest level and every restriction, many long sessions that stop at the limit, telemetry.
pub proof fn law_service_settings()
    ensures
        ({
            let ls = service_lines();
            &&& stands_in(ls, Line::Table("output"), Line::Text("format", "human"))
            &&& stands_in(ls, Line::Table("output"), Line::Text("renderer", "markdown"))
            &&& stands_in(ls, Line::Table("wal"), Line::Text("mode", "always"))
            &&& stands_in(ls, Line::Table("wal"), Line::Switch("enabled", true))
            &&& stands_in(ls, Line::Table("backup"), Line::Switch("enabled", true))
            &&& stands_in(ls, Line::Table("guards"), Line::Text("dal", "A"))
            &&& stands_in(ls, Line::Table("guards"), Line::Switch("blocklist_enabled", true))
            &&& stands_in(ls, Line::Table("guards"), Line::Switch("critical_files_enabled", true))
            &&& stands_in(ls, Line::Table("guards"), Line::Switch("path_restriction_enabled", true))
            &&& stands_in(ls, Line::Table("session"), Line::Number("max_sessions", 100))
            &&& stands_in(ls, Line::Table("session"), Line::Number("timeout_secs", 3600))
            &&& stands_in(ls, Line::Table("session"), Line::Text("on_limit", "stop"))
            &&& stands_in(ls, Line::Table("telemetry"), Line::Switch("enabled", true))
        }),
{
    let ls = service_lines();
    assert(headed_by(ls, 5, 7));
    assert(headed_by(ls, 5, 8));
    assert(headed_by(ls, 10, 12));
    assert(headed_by(ls, 10, 13));
    assert(headed_by(ls, 15, 16));
    assert(headed_by(ls, 18, 20));
    assert(headed_by(ls, 18, 21));
    assert(headed_by(ls, 18, 22));
    assert(headed_by(ls, 18, 23));
    assert(headed_by(ls, 25, 26));
    assert(headed_by(ls, 25, 27));
    assert(headed_by(ls, 25, 28));
    assert(headed_by(ls, 30, 31));
}

/// The minimal template sets its profile and nothing else.
pub proof fn law_minimal_settings(i: int)
    requires
        0 <= i < minimal_lines().len(),
    ensures
        key_of(minimal_lines()[i]) is Some ==> minimal_lines()[i] == Line::Text(
            "profile",
            "minimal",
        ),
        table_of(minimal_lines()[i]) is None,
{
}

/// The value of a key is that of the first entry under it.
pub proof fn law_entries(entries: Seq<(Seq<char>, Option<Seq<char>>)>, key: Seq<char>)
    ensures
        entry_of(entries, key) is None <==> forall|i: int|
            0 <= i < entries.len() ==> (#[trigger] entries[i]).0 != key,
        entry_of(entries, key) is Some ==> exists|i: int|
            {
                &&& 0 <= i < entries.len()
                &&& (#[trigger] entries[i]) == (key, entry_of(entries, key)->0)
                &&& forall|j: int| 0 <= j < i ==> (#[trigger] entries[j]).0 != key
            },
    decreases entries.len(),
{
    if entries.len() > 0 {
        let rest = entries.skip(1);
        law_entries(rest, key);
        assert(forall|i: int| 0 <= i < rest.len() ==> #[trigger] rest[i] == entries[i + 1]);
        assert(forall|i: int| 0 < i < entries.len() ==> #[trigger] entries[i] == rest[i - 1]);
        if entries[0].0 == key {
            assert(entries[0] == (key, entry_of(entries, key)->0));
        } else if entry_of(rest, key) is Some {
            let i = choose|i: int|
                {
                    &&& 0 <= i < rest.len()
                    &&& (#[trigger] rest[i]) == (key, entry_of(rest, key)->0)
                    &&& forall|j: int| 0 <= j < i ==> (#[trigger] rest[j]).0 != key
                };
            assert(entries[i + 1] == (key, entry_of(entries, key)->0));
        }
    }
}

} // verus!
