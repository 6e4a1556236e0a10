//! Paths as text, and the places where the runtime keeps its files.
use vstd::prelude::*;
use vstd::string::*;

use crate::text;

verus! {

broadcast use vstd::string::group_string_axioms;

/// The path begins at the root.
pub open spec fn absolute(path: Seq<char>) -> bool {
    path.len() > 0 && path[0] == '/'
}

/// A relative path below a directory.
pub open spec fn below(dir: Seq<char>, rest: Seq<char>) -> Seq<char> {
    if dir.len() == 0 {
        rest
    } else if dir.last() == '/' {
        dir + rest
    } else {
        dir + "/"@ + rest
    }
}

/// Whether a path begins at the root.
pub fn is_absolute(path: &str) -> (r: bool)
    ensures
        r == absolute(path@),
{
    let cs = text::chars_of(path);
    cs.len() > 0 && cs[0] == '/'
}

/// A relative path below a directory.
pub fn join(dir: &str, rest: &str) -> (r: String)
    ensures
        r@ == below(dir@, rest@),
{
    let cs = text::chars_of(dir);
    if cs.len() == 0 {
        rest.to_owned()
    } else {
        let mut r = dir.to_owned();
        if cs[cs.len() - 1] != '/' {
            r.append("/");
        }
        r.append(rest);
        r
    }
}

/// The directory that a setting names where it is absolute, else one below the home directory.
pub open spec fn base_dir(setting: Option<String>, home: Option<String>, sub: Seq<char>) -> Option<
    Seq<char>,
> {
    if setting is Some && absolute(setting->0@) {
        Some(setting->0@)
    } else {
        match home {
            Some(h) => Some(below(h@, sub)),
            None => None,
        }
    }
}

/// The directory that a setting names where it is absolute, else one below the home directory.
///
/// A setting that is not absolute is passed over, so that the place never varies with the working
/// directory.
pub fn choose_base(setting: &Option<String>, home: &Option<String>, sub: &str) -> (r: Option<String>)
    ensures
        match r {
            Some(d) => base_dir(*setting, *home, sub@) == Some(d@),
            None => base_dir(*setting, *home, sub@) is None,
        },
{
    if let Some(s) = setting {
        if is_absolute(s.as_str()) {
            return Some(s.clone());
        }
    }
    match home {
        Some(h) => Some(join(h.as_str(), sub)),
        None => None,
    }
}

/// The directory for data that lasts.
pub open spec fn data_place(xdg_data_home: Option<String>, home: Option<String>) -> Seq<char> {
    match base_dir(xdg_data_home, home, ".local/share"@) {
        Some(d) => below(d, "runtimo"@),
        None => "/tmp/runtimo"@,
    }
}

/// The directory for data that lasts.
///
/// Where neither `XDG_DATA_HOME` nor `HOME` gives one it is `/tmp/runtimo`, which does not outlive
/// a restart of the machine.
pub fn data_dir(xdg_data_home: &Option<String>, home: &Option<String>) -> (r: String)
    ensures
        r@ == data_place(*xdg_data_home, *home),
{
    match choose_base(xdg_data_home, home, ".local/share") {
        Some(d) => join(d.as_str(), "runtimo"),
        None => "/tmp/runtimo".to_owned(),
    }
}

/// The file of the write-ahead log: the one that `RUNTIMO_WAL_PATH` names, else `wal.jsonl` in the
/// data directory.
pub fn wal_path(setting: &Option<String>, data: &str) -> (r: String)
    ensures
        r@ == text::text_or(*setting, below(data@, "wal.jsonl"@)),
{
    match setting {
        Some(p) => p.clone(),
        None => join(data, "wal.jsonl"),
    }
}

/// The directory for backups, always below the data directory.
pub fn backup_dir(data: &str) -> (r: String)
    ensures
        r@ == below(data@, "backups"@),
{
    join(data, "backups")
}

/// The backup directory depends on nothing but the data directory.
pub proof fn law_backup_below_data(xdg_data_home: Option<String>, home: Option<String>)
    ensures
        data_place(xdg_data_home, home).is_prefix_of(
            below(data_place(xdg_data_home, home), "backups"@),
        ),
{
    let d = data_place(xdg_data_home, home);
    assert(d =~= below(d, "backups"@).take(d.len() as int));
}

// ---------------------------------------------------------------------------
// Identifiers
// ---------------------------------------------------------------------------

/// A hexadecimal digit.
pub open spec fn hex_digit(d: int) -> char {
    if d < 10 {
        (48 + d) as char
    } else {
        (87 + d) as char
    }
}

/// `n` in hexadecimal, without leading zeros.
pub open spec fn hex(n: nat) -> Seq<char>
    decreases n,
{
    if n < 16 {
        seq![hex_digit(n as int)]
    } else {
        hex(n / 16).push(hex_digit((n % 16) as int))
    }
}

/// Bytes in hexadecimal, two digits each.
pub open spec fn hex_bytes(b: Seq<u8>) -> Seq<char>
    decreases b.len(),
{
    if b.len() == 0 {
        Seq::empty()
    } else {
        hex_bytes(b.drop_last()).push(hex_digit(b.last() as int / 16)).push(
            hex_digit(b.last() as int % 16),
        )
    }
}

fn hex_char(d: u8) -> (c: char)
    requires
        d < 16,
    ensures
        c == hex_digit(d as int),
{
    if d < 10 {
        (48u8 + d) as char
    } else {
        (87u8 + d) as char
    }
}

/// Bytes in hexadecimal, two digits each.
pub fn hex_of_bytes(b: &Vec<u8>) -> (r: String)
    ensures
        r@ == hex_bytes(b@),
{
    let mut r: String = String::new();
    for i in 0..b.len()
        invariant
            r@ == hex_bytes(b@.take(i as int)),
    {
        assert(b@.take(i + 1).drop_last() =~= b@.take(i as int));
        text::push_char(&mut r, hex_char(b[i] / 16));
        text::push_char(&mut r, hex_char(b[i] % 16));
    }
    assert(b@.take(b@.len() as int) =~= b@);
    r
}

/// `n` in hexadecimal, without leading zeros.
pub fn hex_of_number(n: u128) -> (r: String)
    ensures
        r@ == hex(n as nat),
    decreases n,
{
    let mut r = if n < 16 {
        String::new()
    } else {
        hex_of_number(n / 16)
    };
    text::push_char(&mut r, hex_char((n % 16) as u8));
    assert(n < 16 ==> r@ =~= hex(n as nat));
    r
}

/// An identifier: random bytes in hexadecimal, or the time in nanoseconds where there are none.
pub fn generate_id(random: &Option<Vec<u8>>, now_ns: u128) -> (r: String)
    ensures
        r@ == (match *random {
            Some(b) => hex_bytes(b@),
            None => hex(now_ns as nat),
        }),
        match *random {
            Some(b) => r@.len() == 2 * b@.len(),
            None => r@.len() > 0,
        },
{
    proof {
        if random is Some {
            lemma_hex_bytes_len(random->0@);
        }
    }
    match random {
        Some(b) => hex_of_bytes(b),
        None => hex_of_number(now_ns),
    }
}

/// Two digits stand for every byte.
pub proof fn lemma_hex_bytes_len(b: Seq<u8>)
    ensures
        hex_bytes(b).len() == 2 * b.len(),
    decreases b.len(),
{
    if b.len() > 0 {
        lemma_hex_bytes_len(b.drop_last());
    }
}

/// Different random bytes give different identifiers.
pub proof fn law_ids_differ(a: Seq<u8>, b: Seq<u8>)
    requires
        a.len() == b.len(),
        hex_bytes(a) == hex_bytes(b),
    ensures
        a == b,
    decreases a.len(),
{
    if a.len() > 0 {
        lemma_hex_bytes_len(a.drop_last());
        lemma_hex_bytes_len(b.drop_last());
        let x = hex_bytes(a);
        let y = hex_bytes(b);
        let n = x.len() as int;
        assert(x[n - 1] == y[n - 1] && x[n - 2] == y[n - 2]);
        assert(x.take(n - 2) =~= hex_bytes(a.drop_last()));
        assert(y.take(n - 2) =~= hex_bytes(b.drop_last()));
        law_ids_differ(a.drop_last(), b.drop_last());
        assert(a.last() == b.last()) by {
            let p = a.last() as int;
            let q = b.last() as int;
            assert(p / 16 == q / 16 && p % 16 == q % 16);
        }
        assert(a =~= a.drop_last().push(a.last()));
        assert(b =~= b.drop_last().push(b.last()));
    }
}

/// A name below a directory stands behind it, with one slash between them unless the directory ends in
/// one; below no directory it stands alone.
pub proof fn law_below(dir: Seq<char>, name: Seq<char>)
    ensures
        below(Seq::empty(), name) == name,
        below(dir.push('/'), name) == dir.push('/') + name,
        dir.len() > 0 && dir[dir.len() - 1] != '/' ==> below(dir, name) == dir + seq!['/'] + name,
{
    reveal_strlit("/");
    assert("/"@ =~= seq!['/']);
}

/// The base directory is the one that is set, if that is absolute; else the usual one below the home
/// directory; and there is none where no home directory is known.
pub proof fn law_base_directory(setting: Option<String>, home: Option<String>, sub: Seq<char>)
    ensures
        setting matches Some(s) ==> s@.len() > 0 && s@[0] == '/' ==> base_dir(setting, home, sub)
            == Some(s@),
        setting is None || setting->0@.len() == 0 || setting->0@[0] != '/' ==> base_dir(
            setting,
            home,
            sub,
        ) == (match home {
            Some(h) => Some(below(h@, sub)),
            None => None,
        }),
        data_place(setting, home) == (match base_dir(setting, home, ".local/share"@) {
            Some(d) => below(d, "runtimo"@),
            None => "/tmp/runtimo"@,
        }),
{
}

/// The log lies where it is told to, and in the data directory where it is not told; backups always
/// lie in the data directory.
pub proof fn law_places_of_files(setting: Option<String>, data: &str)
    ensures
        forall|r: String| #[trigger]
            call_ensures(wal_path, (&setting, data), r) ==> r@ == (match setting {
                Some(p) => p@,
                None => below(data@, "wal.jsonl"@),
            }),
        forall|r: String| #[trigger]
            call_ensures(backup_dir, (data,), r) ==> r@ == below(data@, "backups"@),
{
}

/// A byte is written by two digits of sixteen, the higher first, in lower case.
pub proof fn law_hexadecimal(b: Seq<u8>, x: u8, d: int)
    ensures
        hex_bytes(b.push(x)) == hex_bytes(b) + seq![
            hex_digit(x as int / 16),
            hex_digit(x as int % 16),
        ],
        hex_bytes(Seq::empty()) == Seq::<char>::empty(),
        0 <= d <= 9 ==> hex_digit(d) as int == '0' as int + d,
        10 <= d <= 15 ==> hex_digit(d) as int == 'a' as int + d - 10,
{
    assert(b.push(x).drop_last() =~= b);
    assert(hex_bytes(b.push(x)) =~= hex_bytes(b) + seq![
        hex_digit(x as int / 16),
        hex_digit(x as int % 16),
    ]);
}

} // verus!
