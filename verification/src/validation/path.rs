//! Paths that a request may use.
//!
//! A path is refused before the file system is asked where its text alone is reason enough. The
//! rest is decided from what the file system says of it.
use vstd::prelude::*;
use vstd::string::*;

use crate::text;
use crate::utils;

verus! {

broadcast use vstd::string::group_string_axioms;

/// What is asked of a path.
#[derive(Debug)]
pub struct PathContext {
    /// Further directories that the path may lie in.
    pub allowed_prefixes: Vec<String>,
    pub require_exists: bool,
    /// The path may not be a directory.
    pub require_file: bool,
}

impl Default for PathContext {
    fn default() -> (r: Self)
        ensures
            r.allowed_prefixes@.len() == 0,
            r.require_exists,
            r.require_file,
    {
        PathContext { allowed_prefixes: Vec::new(), require_exists: true, require_file: true }
    }
}

/// Where paths may lie: the allowed directories, and whether paths are held to them.
#[derive(Debug)]
pub struct PathPolicy {
    pub allowed: Vec<String>,
    pub restricted: bool,
}

/// What the file system says of a path that its text does not rule out.
#[derive(Debug)]
pub struct PathFacts {
    pub exists: bool,
    /// The path with all links followed, or why that failed.
    pub canonical: Result<String, String>,
    pub parent_exists: bool,
    /// The path of the parent with all links followed, or why that failed.
    pub canonical_parent: Result<String, String>,
    /// The last component of the path.
    pub file_name: Option<String>,
    /// Something is there under the path with all links followed.
    pub resolved_exists: bool,
    /// What is there is a file.
    pub resolved_is_file: bool,
}

/// A text in canonical composition.
pub uninterp spec fn composed(s: Seq<char>) -> Seq<char>;

/// Puts a text into canonical composition, by the `nfc` iterator of `unicode-normalization`. The
/// result is a function of the text alone and is named [`composed`]; ASCII text stays as it is.
#[verifier::external_body]
fn compose(s: &str) -> (r: String)
    ensures
        r@ == composed(s@),
        s.is_ascii() ==> r@ == s@,
{
    unicode_normalization::UnicodeNormalization::nfc(s).collect()
}

/// A control character: below the space, or delete.
pub open spec fn is_control(c: char) -> bool {
    (c as u32) < 32 || c as u32 == 127
}

/// Why the text of a path alone rules it out.
pub open spec fn text_fault(path: Seq<char>) -> Option<Seq<char>> {
    if path.len() == 0 {
        Some("path is empty"@)
    } else if path.contains('\0') {
        Some("path contains null byte"@)
    } else if exists|i: int| 0 <= i < path.len() && is_control(#[trigger] path[i]) {
        Some("path contains control character"@)
    } else if text::contains_text(composed(path), ".."@) {
        Some("path traversal not allowed"@)
    } else {
        None
    }
}

/// Where a path leads: with its links followed where it exists, in its parent with that one's
/// links followed where only the parent does, and where neither does only if it is absolute.
pub open spec fn resolution(path: Seq<char>, facts: PathFacts) -> Result<Seq<char>, Seq<char>> {
    if facts.exists {
        match facts.canonical {
            Ok(p) => Ok(p@),
            Err(e) => Err("canonicalize failed: "@ + e@),
        }
    } else if facts.parent_exists {
        match facts.canonical_parent {
            Ok(d) => match facts.file_name {
                Some(n) => Ok(utils::below(d@, n@)),
                None => Err("invalid filename"@),
            },
            Err(e) => Err("canonicalize parent failed: "@ + e@),
        }
    } else if utils::absolute(path) {
        Ok(path)
    } else {
        Err("cannot resolve relative path without CWD: "@ + path)
    }
}

/// A path lies in a directory: it is the directory, or continues it behind a slash.
pub open spec fn in_prefix(path: Seq<char>, prefix: Seq<char>) -> bool {
    path == prefix || (prefix + "/"@).is_prefix_of(path)
}

/// A path lies in one of some directories.
pub open spec fn in_some(path: Seq<char>, prefixes: Seq<Seq<char>>) -> bool {
    exists|i: int| 0 <= i < prefixes.len() && in_prefix(path, #[trigger] prefixes[i])
}

/// The directories that some others are added to, without white space around them and each once.
pub open spec fn with_context(have: Seq<Seq<char>>, more: Seq<Seq<char>>) -> Seq<Seq<char>>
    decreases more.len(),
{
    if more.len() == 0 {
        have
    } else {
        let before = with_context(have, more.drop_last());
        let p = text::trimmed(more.last());
        if before.contains(p) {
            before
        } else {
            before.push(p)
        }
    }
}

/// Where a path leads, or why it is refused. `extra` are further directories that it may lie in.
pub open spec fn judged(
    path: Seq<char>,
    extra: Seq<Seq<char>>,
    must_exist: bool,
    must_be_file: bool,
    policy: PathPolicy,
    facts: PathFacts,
) -> Result<Seq<char>, Seq<char>> {
    let normal = composed(path);
    if text_fault(path) is Some {
        Err(text_fault(path)->0)
    } else if must_exist && !facts.exists {
        Err("path does not exist: "@ + normal)
    } else {
        match resolution(normal, facts) {
            Err(e) => Err(e),
            Ok(p) => if must_be_file && facts.resolved_exists && !facts.resolved_is_file {
                Err("not a file: "@ + p)
            } else if policy.restricted && !in_some(
                p,
                with_context(text::texts(policy.allowed@), extra),
            ) {
                Err("path outside allowed directories: "@ + p)
            } else {
                Ok(p)
            },
        }
    }
}

/// Where a path leads, or why it is refused.
pub open spec fn verdict(
    path: Seq<char>,
    ctx: PathContext,
    policy: PathPolicy,
    facts: PathFacts,
) -> Result<Seq<char>, Seq<char>> {
    judged(
        path,
        text::texts(ctx.allowed_prefixes@),
        ctx.require_exists,
        ctx.require_file,
        policy,
        facts,
    )
}

/// Whether a path lies in a directory.
pub fn path_in_prefix(path: &str, prefix: &str) -> (r: bool)
    ensures
        r == in_prefix(path@, prefix@),
{
    if text::same(path, prefix) {
        return true;
    }
    let mut dir = prefix.to_owned();
    dir.append("/");
    text::starts_with(path, dir.as_str())
}

/// The allowed directories with those of the request.
fn get_allowed_prefixes(ctx: &PathContext, allowed: &Vec<String>) -> (r: Vec<String>)
    ensures
        text::texts(r@) == with_context(text::texts(allowed@), text::texts(ctx.allowed_prefixes@)),
{
    let ghost first = text::texts(allowed@);
    let ghost all = text::texts(ctx.allowed_prefixes@);
    let mut r: Vec<String> = Vec::new();
    for i in 0..allowed.len()
        invariant
            text::texts(r@) == text::texts(allowed@).take(i as int),
    {
        let ghost before = r@;
        r.push(allowed[i].clone());
        assert(text::texts(r@) =~= text::texts(before).push(allowed@[i as int]@));
        assert(text::texts(r@) =~= text::texts(allowed@).take(i + 1));
    }
    assert(text::texts(r@) =~= first);
    for i in 0..ctx.allowed_prefixes.len()
        invariant
            all == text::texts(ctx.allowed_prefixes@),
            text::texts(r@) == with_context(first, all.take(i as int)),
    {
        assert(all.take(i + 1).drop_last() =~= all.take(i as int));
        let p = text::trim(ctx.allowed_prefixes[i].as_str());
        if !text::holds_text(&r, p.as_str()) {
            let ghost before = r@;
            let ghost t = p@;
            r.push(p);
            assert(text::texts(r@) =~= text::texts(before).push(t));
        }
    }
    assert(all.take(all.len() as int) =~= all);
    r
}

/// Checks the text of a path and puts it into canonical composition.
///
/// What comes back is the path to ask the file system about.
pub fn normalize_path(path_str: &str) -> (r: Result<String, String>)
    ensures
        match r {
            Ok(p) => text_fault(path_str@) is None && p@ == composed(path_str@),
            Err(m) => text_fault(path_str@) == Some(m@),
        },
        path_str.is_ascii() && r is Ok ==> r->Ok_0@ == path_str@,
{
    let cs = text::chars_of(path_str);
    if cs.len() == 0 {
        return Err("path is empty".to_owned());
    }
    let mut control = false;
    for i in 0..cs.len()
        invariant
            cs@ == path_str@,
            forall|j: int| 0 <= j < i ==> (#[trigger] cs@[j]) != '\0',
            control == (exists|j: int| 0 <= j < i && is_control(#[trigger] cs@[j])),
    {
        let c = cs[i];
        if c == '\0' {
            assert(path_str@.contains(cs@[i as int]));
            return Err("path contains null byte".to_owned());
        }
        if (c as u32) < 32 || c as u32 == 127 {
            assert(is_control(cs@[i as int]));
            control = true;
        }
    }
    if control {
        return Err("path contains control character".to_owned());
    }
    let normal = compose(path_str);
    if text::contains(normal.as_str(), "..") {
        return Err("path traversal not allowed".to_owned());
    }
    Ok(normal)
}

/// A message behind what it opens with.
fn message(head: &str, what: &str) -> (r: String)
    ensures
        r@ == head@ + what@,
{
    let mut r = head.to_owned();
    r.append(what);
    r
}

/// Where a path leads.
fn resolve(path: &str, facts: &PathFacts) -> (r: Result<String, String>)
    ensures
        match r {
            Ok(p) => resolution(path@, *facts) == Result::<Seq<char>, Seq<char>>::Ok(p@),
            Err(m) => resolution(path@, *facts) == Result::<Seq<char>, Seq<char>>::Err(m@),
        },
{
    if facts.exists {
        match &facts.canonical {
            Ok(p) => Ok(p.clone()),
            Err(e) => Err(message("canonicalize failed: ", e.as_str())),
        }
    } else if facts.parent_exists {
        match &facts.canonical_parent {
            Ok(d) => match &facts.file_name {
                Some(n) => Ok(utils::join(d.as_str(), n.as_str())),
                None => Err("invalid filename".to_owned()),
            },
            Err(e) => Err(message("canonicalize parent failed: ", e.as_str())),
        }
    } else if utils::is_absolute(path) {
        Ok(path.to_owned())
    } else {
        Err(message("cannot resolve relative path without CWD: ", path))
    }
}

/// Checks a path and tells where it leads.
///
/// `facts` is what the file system says of the path that [`normalize_path`] gives. The working
/// directory plays no part, and no message names the allowed directories.
pub fn validate_path(
    path_str: &str,
    ctx: &PathContext,
    policy: &PathPolicy,
    facts: &PathFacts,
) -> (r: Result<String, String>)
    ensures
        match r {
            Ok(p) => verdict(path_str@, *ctx, *policy, *facts) == Result::<Seq<char>, Seq<char>>::Ok(
                p@,
            ),
            Err(m) => verdict(path_str@, *ctx, *policy, *facts) == Result::<
                Seq<char>,
                Seq<char>,
            >::Err(m@),
        },
{
    let normal = match normalize_path(path_str) {
        Ok(p) => p,
        Err(m) => {
            return Err(m);
        },
    };
    if ctx.require_exists && !facts.exists {
        return Err(message("path does not exist: ", normal.as_str()));
    }
    let resolved = match resolve(normal.as_str(), facts) {
        Ok(p) => p,
        Err(m) => {
            return Err(m);
        },
    };
    if ctx.require_file && facts.resolved_exists && !facts.resolved_is_file {
        return Err(message("not a file: ", resolved.as_str()));
    }
    if policy.restricted {
        let allowed = get_allowed_prefixes(ctx, &policy.allowed);
        let ghost all = text::texts(allowed@);
        let mut inside = false;
        for i in 0..allowed.len()
            invariant
                all == text::texts(allowed@),
                inside == (exists|j: int|
                    0 <= j < i && in_prefix(resolved@, #[trigger] all[j])),
        {
            assert(all[i as int] == allowed@[i as int]@);
            if path_in_prefix(resolved.as_str(), allowed[i].as_str()) {
                assert(in_prefix(resolved@, all[i as int]));
                inside = true;
            }
        }
        if !inside {
            return Err(message("path outside allowed directories: ", resolved.as_str()));
        }
    }
    Ok(resolved)
}

/// A path that is accepted has no step upwards, no control character, and lies in an allowed
/// directory where paths are held to those.
pub proof fn law_accepted_paths(
    path: Seq<char>,
    ctx: PathContext,
    policy: PathPolicy,
    facts: PathFacts,
)
    requires
        verdict(path, ctx, policy, facts) is Ok,
    ensures
        !text::contains_text(composed(path), ".."@),
        forall|i: int| 0 <= i < path.len() ==> !is_control(#[trigger] path[i]),
        policy.restricted ==> in_some(
            verdict(path, ctx, policy, facts)->Ok_0,
            with_context(text::texts(policy.allowed@), text::texts(ctx.allowed_prefixes@)),
        ),
{
}

/// Why a path is refused says nothing of the allowed directories: two policies that both refuse
/// it do so with the same message.
pub proof fn law_refusals_do_not_leak(
    path: Seq<char>,
    ctx: PathContext,
    a: PathPolicy,
    b: PathPolicy,
    facts: PathFacts,
)
    requires
        verdict(path, ctx, a, facts) is Err,
        verdict(path, ctx, b, facts) is Err,
    ensures
        verdict(path, ctx, a, facts) == verdict(path, ctx, b, facts),
{
}

/// A name that merely begins like a directory does not lie in it.
pub proof fn law_no_prefix_bypass(dir: Seq<char>, rest: Seq<char>)
    requires
        rest.len() > 0,
        rest[0] != '/',
    ensures
        !in_prefix(dir + rest, dir),
{
    reveal_strlit("/");
    let path = dir + rest;
    assert(path.len() > dir.len());
    if (dir + "/"@).is_prefix_of(path) {
        assert((dir + "/"@)[dir.len() as int] == '/');
        assert(path[dir.len() as int] == rest[0]);
    }
}

/// With paths not held to the allowed directories, the directories decide nothing.
pub proof fn law_unrestricted(
    path: Seq<char>,
    ctx: PathContext,
    a: PathPolicy,
    b: PathPolicy,
    facts: PathFacts,
)
    requires
        !a.restricted,
        !b.restricted,
    ensures
        verdict(path, ctx, a, facts) == verdict(path, ctx, b, facts),
{
}

/// An accepted path that exists is its form with all links followed. One that does not exist, but
/// whose parent does, is the parent with all links followed, a slash unless the parent ends in one,
/// and the name: it ends in the name, and what stands before is the parent. One of which neither
/// exists is absolute, and stands as it was asked for.
pub proof fn law_where_an_accepted_path_leads(
    path: Seq<char>,
    ctx: PathContext,
    policy: PathPolicy,
    facts: PathFacts,
)
    requires
        verdict(path, ctx, policy, facts) is Ok,
    ensures
        ({
            let p = verdict(path, ctx, policy, facts)->Ok_0;
            &&& facts.exists ==> facts.canonical is Ok && p == facts.canonical->Ok_0@
            &&& !facts.exists && facts.parent_exists ==> {
                &&& facts.canonical_parent is Ok
                &&& facts.file_name is Some
                &&& p.len() >= facts.file_name->0@.len()
                &&& p.skip(p.len() - facts.file_name->0@.len()) == facts.file_name->0@
                &&& facts.canonical_parent->Ok_0@.len() > 0 ==> {
                    let d = facts.canonical_parent->Ok_0@;
                    let front = p.take(p.len() - facts.file_name->0@.len());
                    front == (if d[d.len() - 1] == '/' {
                        d
                    } else {
                        d.push('/')
                    })
                }
            }
            &&& !facts.exists && !facts.parent_exists ==> p == composed(path) && p.len() > 0 && p[0]
                == '/'
        }),
{
    reveal_strlit("/");
    let p = verdict(path, ctx, policy, facts)->Ok_0;
    if !facts.exists && facts.parent_exists {
        let d = facts.canonical_parent->Ok_0@;
        let n = facts.file_name->0@;
        assert(p.skip(p.len() - n.len()) =~= n);
        if d.len() > 0 {
            assert(p.take(p.len() - n.len()) =~= (if d[d.len() - 1] == '/' {
                d
            } else {
                d.push('/')
            }));
        }
    }
}

/// A path lies in a directory: it is the directory, or the directory, a slash and more.
pub open spec fn lies_in(path: Seq<char>, dir: Seq<char>) -> bool {
    path == dir || exists|rest: Seq<char>| path == #[trigger] (dir.push('/') + rest)
}

/// Paths lie in the directory that they are, and in every directory that they continue behind a
/// slash, and in no other.
pub proof fn law_lying_in_a_directory(path: Seq<char>, dir: Seq<char>, rest: Seq<char>)
    ensures
        in_prefix(path, dir) <==> lies_in(path, dir),
        in_prefix(dir, dir),
        in_prefix(dir.push('/') + rest, dir),
{
    reveal_strlit("/");
    let d = dir + "/"@;
    assert(d =~= dir.push('/'));
    if d.is_prefix_of(path) {
        let more = path.skip(d.len() as int);
        assert(path =~= dir.push('/') + more);
    }
    if exists|r: Seq<char>| path == #[trigger] (dir.push('/') + r) {
        let r = choose|r: Seq<char>| path == #[trigger] (dir.push('/') + r);
        assert(path.take(d.len() as int) =~= d);
    }
    assert((dir.push('/') + rest).take(d.len() as int) =~= d);
}

/// The directories that count are the allowed ones and those of the request, the latter without white
/// space around them; no other, and none is lost.
pub proof fn law_directories_that_count(have: Seq<Seq<char>>, more: Seq<Seq<char>>, d: Seq<char>)
    ensures
        with_context(have, more).contains(d) <==> have.contains(d) || exists|i: int|
            0 <= i < more.len() && text::trimmed(#[trigger] more[i]) == d,
    decreases more.len(),
{
    if more.len() > 0 {
        let rest = more.drop_last();
        law_directories_that_count(have, rest, d);
        let before = with_context(have, rest);
        let after = with_context(have, more);
        let p = text::trimmed(more.last());
        if after.contains(d) && !before.contains(d) {
            let k = choose|k: int| 0 <= k < after.len() && after[k] == d;
            if k < before.len() {
                assert(before[k] == d);
            }
            assert(text::trimmed(more[more.len() - 1]) == d);
        }
        if before.contains(d) {
            let k = choose|k: int| 0 <= k < before.len() && before[k] == d;
            assert(after[k] == d);
            if exists|i: int| 0 <= i < rest.len() && text::trimmed(#[trigger] rest[i]) == d {
                let i = choose|i: int| 0 <= i < rest.len() && text::trimmed(#[trigger] rest[i]) == d;
                assert(text::trimmed(more[i]) == d);
            }
        }
        if exists|i: int| 0 <= i < more.len() && text::trimmed(#[trigger] more[i]) == d {
            let i = choose|i: int| 0 <= i < more.len() && text::trimmed(#[trigger] more[i]) == d;
            if i < rest.len() {
                assert(text::trimmed(rest[i]) == d);
            } else if !before.contains(p) {
                assert(after[after.len() - 1] == d);
            }
        }
    }
}

/// The control characters are those below the space, and delete.
pub proof fn law_control_characters(c: char)
    ensures
        is_control(c) <==> (c as int) < 32 || c as int == 127,
{
}

/// A path is accepted exactly where its text is not empty and has no control character, no delete and
/// no step upwards in it, where it exists or need not, where it leads somewhere, where it is no
/// directory or may be one, and where it lies in a directory that counts or need not.
pub proof fn law_accepted_exactly(
    path: Seq<char>,
    ctx: PathContext,
    policy: PathPolicy,
    facts: PathFacts,
)
    ensures
        verdict(path, ctx, policy, facts) is Ok <==> {
            &&& path.len() > 0
            &&& forall|i: int|
                0 <= i < path.len() ==> (#[trigger] path[i]) as int >= 32 && path[i] as int != 127
            &&& !text::contains_text(composed(path), ".."@)
            &&& ctx.require_exists ==> facts.exists
            &&& if facts.exists {
                facts.canonical is Ok
            } else if facts.parent_exists {
                facts.canonical_parent is Ok && facts.file_name is Some
            } else {
                composed(path).len() > 0 && composed(path)[0] == '/'
            }
            &&& !(ctx.require_file && facts.resolved_exists && !facts.resolved_is_file)
            &&& policy.restricted ==> exists|d: Seq<char>|
                #![trigger with_context(text::texts(policy.allowed@), text::texts(ctx.allowed_prefixes@)).contains(d)]
                with_context(
                    text::texts(policy.allowed@),
                    text::texts(ctx.allowed_prefixes@),
                ).contains(d) && lies_in(resolution(composed(path), facts)->Ok_0, d)
        },
{
    let dirs = with_context(text::texts(policy.allowed@), text::texts(ctx.allowed_prefixes@));
    let p = resolution(composed(path), facts)->Ok_0;
    if path.contains('\0') {
        let i = choose|i: int| 0 <= i < path.len() && path[i] == '\0';
        assert((path[i]) as int == 0);
    }
    if exists|i: int| 0 <= i < path.len() && is_control(#[trigger] path[i]) {
        let i = choose|i: int| 0 <= i < path.len() && is_control(#[trigger] path[i]);
        law_control_characters(path[i]);
    } else {
        assert forall|i: int| 0 <= i < path.len() implies (#[trigger] path[i]) as int >= 32
            && path[i] as int != 127 by {
            assert(!is_control(path[i]));
            law_control_characters(path[i]);
        }
    }
    if in_some(p, dirs) {
        let i = choose|i: int| 0 <= i < dirs.len() && in_prefix(p, #[trigger] dirs[i]);
        law_lying_in_a_directory(p, dirs[i], Seq::empty());
        assert(dirs.contains(dirs[i]));
    }
    if exists|d: Seq<char>| #![trigger dirs.contains(d)] dirs.contains(d) && lies_in(p, d) {
        let d = choose|d: Seq<char>| #![trigger dirs.contains(d)] dirs.contains(d) && lies_in(p, d);
        law_lying_in_a_directory(p, d, Seq::empty());
        let i = choose|i: int| 0 <= i < dirs.len() && dirs[i] == d;
        assert(in_prefix(p, dirs[i]));
    }
}

/// Each refusal says what it is for: the first thing that is wrong, with the path that it is about.
pub proof fn law_refusals_say_why(
    path: Seq<char>,
    ctx: PathContext,
    policy: PathPolicy,
    facts: PathFacts,
)
    ensures
        path.len() == 0 ==> verdict(path, ctx, policy, facts) == Err::<Seq<char>, Seq<char>>(
            "path is empty"@,
        ),
        path.contains('\0') ==> verdict(path, ctx, policy, facts) == Err::<Seq<char>, Seq<char>>(
            "path contains null byte"@,
        ),
        text_fault(path) is None && ctx.require_exists && !facts.exists ==> verdict(
            path,
            ctx,
            policy,
            facts,
        ) == Err::<Seq<char>, Seq<char>>("path does not exist: "@ + composed(path)),
        text_fault(path) is None && facts.exists && facts.canonical is Ok && ctx.require_file
            && facts.resolved_exists && !facts.resolved_is_file ==> verdict(path, ctx, policy, facts)
            == Err::<Seq<char>, Seq<char>>("not a file: "@ + facts.canonical->Ok_0@),
        path.len() > 0 && (forall|i: int|
            0 <= i < path.len() ==> (#[trigger] path[i]) as int >= 32 && path[i] as int != 127)
            && text::contains_text(composed(path), ".."@) ==> verdict(path, ctx, policy, facts)
            == Err::<Seq<char>, Seq<char>>("path traversal not allowed"@),
{
    if path.contains('\0') {
        let i = choose|i: int| 0 <= i < path.len() && path[i] == '\0';
        assert((path[i]) as int == 0);
    }
    if exists|i: int| 0 <= i < path.len() && is_control(#[trigger] path[i]) {
        let i = choose|i: int| 0 <= i < path.len() && is_control(#[trigger] path[i]);
        law_control_characters(path[i]);
    }
}

} // verus!
