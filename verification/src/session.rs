//! Sessions: jobs that belong together, and the files that keep them.
use vstd::prelude::*;
use vstd::string::*;

use crate::error::Error;
use crate::text;
use crate::utils;

verus! {

broadcast use vstd::string::group_string_axioms;

/// Jobs that belong together.
#[derive(Debug)]
pub struct Session {
    pub id: String,
    pub name: Option<String>,
    pub job_ids: Vec<String>,
    /// Unix time at which the session was made, in seconds.
    pub created_at: u64,
    /// Unix time of its last change, in seconds.
    pub updated_at: u64,
    pub status: SessionStatus,
}

/// Where a session stands.
#[derive(Debug, Clone, Copy, PartialEq, Eq, Structural)]
pub enum SessionStatus {
    Active,
    Paused,
    Completed,
    Terminated,
}

impl Default for SessionStatus {
    /// A session is active until something else is said.
    fn default() -> (r: Self)
        ensures
            r == SessionStatus::Active,
    {
        SessionStatus::Active
    }
}

/// An identifier that can be the name of a file without leading out of its directory.
pub open spec fn safe_id(id: Seq<char>) -> bool {
    &&& id.len() > 0
    &&& !id.contains('/')
    &&& !id.contains('\\')
    &&& !id.contains('\0')
    &&& !text::contains_text(id, ".."@)
}

/// The message for an identifier that is not safe.
pub open spec fn id_message(id: Seq<char>) -> Seq<char> {
    "Invalid session ID '"@ + id + "': must be non-empty without '/', '\\', NUL, or '..'"@
}

/// `r` refuses an identifier.
pub open spec fn refuses<A>(r: Result<A, Error>, id: Seq<char>) -> bool {
    r matches Err(Error::SessionError(m)) && m@ == id_message(id)
}

/// Checks that an identifier is safe.
pub fn validate_session_id(session_id: &str) -> (r: Result<(), Error>)
    ensures
        r is Ok <==> safe_id(session_id@),
        r is Err ==> refuses(r, session_id@),
{
    let cs = text::chars_of(session_id);
    let mut plain = cs.len() > 0;
    for i in 0..cs.len()
        invariant
            cs@ == session_id@,
            plain == (cs@.len() > 0 && forall|j: int|
                0 <= j < i ==> (#[trigger] cs@[j]) != '/' && cs@[j] != '\\' && cs@[j] != '\0'),
    {
        if cs[i] == '/' || cs[i] == '\\' || cs[i] == '\0' {
            plain = false;
        }
    }
    if plain && !text::contains(session_id, "..") {
        return Ok(());
    }
    let mut m = "Invalid session ID '".to_owned();
    m.append(session_id);
    m.append("': must be non-empty without '/', '\\', NUL, or '..'");
    proof {
        if cs@.len() > 0 && !text::contains_text(session_id@, ".."@) {
            let j = choose|j: int|
                0 <= j < cs@.len() && !((#[trigger] cs@[j]) != '/' && cs@[j] != '\\' && cs@[j]
                    != '\0');
            assert(session_id@.contains(cs@[j]));
        }
    }
    Err(Error::SessionError(m))
}

/// What reading a session file gave.
#[derive(Debug)]
pub enum SessionFile {
    /// The file could not be read, for this reason.
    Unreadable(String),
    /// The file is not written as a session is, for this reason.
    Malformed(String),
    Read(Session),
}

/// Where a session is written: the file that takes it first, and the file that the first one then
/// replaces.
#[derive(Debug)]
pub struct SavePlan {
    pub path: String,
    pub tmp_path: String,
}

/// Keeps sessions as files in a directory.
#[derive(Debug)]
pub struct SessionManager {
    sessions_dir: String,
}

impl SessionManager {
    /// The directory.
    pub closed spec fn dir(self) -> Seq<char> {
        self.sessions_dir@
    }

    /// A manager for a directory.
    pub fn new(sessions_dir: String) -> (r: Self)
        ensures
            r.dir() == sessions_dir@,
    {
        SessionManager { sessions_dir }
    }

    /// A file of the directory.
    fn file(&self, id: &str, ending: &str) -> (r: String)
        ensures
            r@ == utils::below(self.dir(), id@ + ending@),
    {
        let mut name = id.to_owned();
        name.append(ending);
        utils::join(self.sessions_dir.as_str(), name.as_str())
    }

    /// The file of a session.
    pub fn session_path(&self, session_id: &str) -> (r: Result<String, Error>)
        ensures
            r is Ok <==> safe_id(session_id@),
            r is Err ==> refuses(r, session_id@),
            r matches Ok(p) ==> p@ == utils::below(self.dir(), session_id@ + ".json"@),
    {
        match validate_session_id(session_id) {
            Ok(()) => Ok(self.file(session_id, ".json")),
            Err(e) => Err(e),
        }
    }

    /// The file that is locked while a session is changed.
    pub fn lock_path(&self, session_id: &str) -> (r: Result<String, Error>)
        ensures
            r is Ok <==> safe_id(session_id@),
            r is Err ==> refuses(r, session_id@),
            r matches Ok(p) ==> p@ == utils::below(self.dir(), session_id@ + ".lock"@),
    {
        match validate_session_id(session_id) {
            Ok(()) => Ok(self.file(session_id, ".lock")),
            Err(e) => Err(e),
        }
    }

    /// Where a session is written.
    pub fn save_session(&self, session: &Session) -> (r: Result<SavePlan, Error>)
        ensures
            r is Ok <==> safe_id(session.id@),
            r is Err ==> refuses(r, session.id@),
            r matches Ok(p) ==> p.path@ == utils::below(self.dir(), session.id@ + ".json"@)
                && p.tmp_path@ == utils::below(self.dir(), session.id@ + ".json.tmp"@),
    {
        match validate_session_id(session.id.as_str()) {
            Ok(()) => Ok(
                SavePlan {
                    path: self.file(session.id.as_str(), ".json"),
                    tmp_path: self.file(session.id.as_str(), ".json.tmp"),
                },
            ),
            Err(e) => Err(e),
        }
    }

    /// A new session, with the identifier `id`, made at `now`.
    pub fn create_session(&self, id: String, name: Option<&str>, now: u64) -> (r: Result<
        Session,
        Error,
    >)
        ensures
            r is Ok <==> safe_id(id@),
            r is Err ==> refuses(r, id@),
            r matches Ok(s) ==> {
                &&& s.id == id
                &&& match (name, s.name) {
                    (Some(n), Some(m)) => n@ == m@,
                    (None, None) => true,
                    _ => false,
                }
                &&& s.job_ids@.len() == 0
                &&& s.created_at == now
                &&& s.updated_at == now
                &&& s.status == SessionStatus::Active
            },
    {
        match validate_session_id(id.as_str()) {
            Ok(()) => {},
            Err(e) => {
                return Err(e);
            },
        }
        Ok(
            Session {
                id,
                name: match name {
                    Some(n) => Some(n.to_owned()),
                    None => None,
                },
                job_ids: Vec::new(),
                created_at: now,
                updated_at: now,
                status: SessionStatus::Active,
            },
        )
    }

    /// The session with an identifier, given what reading its file gave.
    pub fn load_session(&self, session_id: &str, file: SessionFile) -> (r: Result<Session, Error>)
        ensures
            !safe_id(session_id@) ==> refuses(r, session_id@),
            safe_id(session_id@) ==> match file {
                SessionFile::Read(s) => r == Result::<Session, Error>::Ok(s),
                SessionFile::Unreadable(why) => r matches Err(Error::SessionError(m)) && m@
                    == "Session not found "@ + session_id@ + ": "@ + why@,
                SessionFile::Malformed(why) => r matches Err(Error::SessionError(m)) && m@
                    == "Failed to parse session: "@ + why@,
            },
    {
        match validate_session_id(session_id) {
            Ok(()) => {},
            Err(e) => {
                return Err(e);
            },
        }
        match file {
            SessionFile::Read(s) => Ok(s),
            SessionFile::Unreadable(why) => {
                let mut m = "Session not found ".to_owned();
                m.append(session_id);
                m.append(": ");
                m.append(why.as_str());
                Err(Error::SessionError(m))
            },
            SessionFile::Malformed(why) => {
                let mut m = "Failed to parse session: ".to_owned();
                m.append(why.as_str());
                Err(Error::SessionError(m))
            },
        }
    }

    /// The session with an identifier and one job more, given what reading its file gave.
    pub fn add_job(&self, session_id: &str, job_id: &str, file: SessionFile, now: u64) -> (r: Result<
        Session,
        Error,
    >)
        ensures
            !safe_id(session_id@) ==> refuses(r, session_id@),
            safe_id(session_id@) ==> match file {
                SessionFile::Read(s) => r matches Ok(t) && {
                    &&& text::texts(t.job_ids@) == text::texts(s.job_ids@).push(job_id@)
                    &&& t.updated_at == now
                    &&& t.id == s.id
                    &&& t.name == s.name
                    &&& t.created_at == s.created_at
                    &&& t.status == s.status
                },
                SessionFile::Unreadable(why) => r matches Err(Error::SessionError(m)) && m@
                    == "Session not found "@ + session_id@ + ": "@ + why@,
                SessionFile::Malformed(why) => r matches Err(Error::SessionError(m)) && m@
                    == "Failed to parse session: "@ + why@,
            },
    {
        let mut session = match self.load_session(session_id, file) {
            Ok(s) => s,
            Err(e) => {
                return Err(e);
            },
        };
        let ghost before = session.job_ids@;
        session.job_ids.push(job_id.to_owned());
        session.updated_at = now;
        assert(text::texts(session.job_ids@) =~= text::texts(before).push(job_id@));
        Ok(session)
    }

    /// The sessions of a directory, given its files with what reading them as sessions gave. The
    /// one that was changed last comes first; files that are no sessions are passed over.
    pub fn list_sessions(&self, files: Vec<(String, Option<Session>)>) -> (r: Vec<Session>)
        ensures
            r@ == listed(sessions_in(files@)),
    {
        let mut files = files;
        let ghost all = files@;
        let mut r: Vec<Session> = Vec::new();
        assert(all.take(all.len() as int) =~= all);
        assert(sessions_in(all.take(0)) =~= Seq::empty());
        let n = files.len();
        let mut i: usize = 0;
        while i < n
            invariant
                i <= n,
                n == all.len(),
                files@ == all.skip(i as int),
                r@ == listed(sessions_in(all.take(i as int))),
            decreases n - i,
        {
            assert(all.take(i + 1).drop_last() =~= all.take(i as int));
            assert(files@[0] == all[i as int]);
            let (name, session) = files.remove(0);
            assert(files@ =~= all.skip(i + 1));
            if is_session_file(name.as_str()) {
                match session {
                    Some(s) => {
                        let ghost before = sessions_in(all.take(i as int));
                        assert(before.push(s).drop_last() =~= before);
                        let k = place_of(&r, s.updated_at);
                        r.insert(k, s);
                    },
                    None => {},
                }
            }
            i = i + 1;
        }
        r
    }
}

/// The name of a session file: something, and `.json`.
pub open spec fn session_file_name(name: Seq<char>) -> bool {
    name.len() > 5 && name.skip(name.len() - 5) == ".json"@
}

/// Whether a name is that of a session file.
fn is_session_file(name: &str) -> (r: bool)
    ensures
        r == session_file_name(name@),
{
    let cs = text::chars_of(name);
    if cs.len() <= 5 {
        return false;
    }
    let tail = text::string_of(&cs, cs.len() - 5, cs.len());
    assert(tail@ =~= name@.skip(name@.len() - 5));
    text::same(tail.as_str(), ".json")
}

/// The sessions among some files, in their order.
pub open spec fn sessions_in(files: Seq<(String, Option<Session>)>) -> Seq<Session>
    decreases files.len(),
{
    if files.len() == 0 {
        Seq::empty()
    } else {
        let before = sessions_in(files.drop_last());
        if session_file_name(files.last().0@) && files.last().1 is Some {
            before.push(files.last().1->0)
        } else {
            before
        }
    }
}

/// How many sessions at the beginning were changed after a time.
pub open spec fn later_run(s: Seq<Session>, time: u64) -> nat
    decreases s.len(),
{
    if s.len() > 0 && s[0].updated_at > time {
        1 + later_run(s.skip(1), time)
    } else {
        0
    }
}

/// Sessions with the one that was changed last first, and of those changed at the same time the
/// one that was found last first.
pub open spec fn listed(s: Seq<Session>) -> Seq<Session>
    decreases s.len(),
{
    if s.len() == 0 {
        Seq::empty()
    } else {
        let before = listed(s.drop_last());
        before.insert(later_run(before, s.last().updated_at) as int, s.last())
    }
}

proof fn lemma_later_run(s: Seq<Session>, time: u64)
    ensures
        later_run(s, time) <= s.len(),
        forall|i: int| 0 <= i < later_run(s, time) ==> (#[trigger] s[i]).updated_at > time,
        later_run(s, time) < s.len() ==> s[later_run(s, time) as int].updated_at <= time,
    decreases s.len(),
{
    if s.len() > 0 && s[0].updated_at > time {
        let rest = s.skip(1);
        lemma_later_run(rest, time);
        assert forall|i: int| 0 <= i < later_run(s, time) implies (#[trigger] s[i]).updated_at
            > time by {
            if i > 0 {
                assert(rest[i - 1] == s[i]);
            }
        }
        if later_run(s, time) < s.len() {
            assert(rest[later_run(rest, time) as int] == s[later_run(s, time) as int]);
        }
    }
}

/// Where a session changed at a time goes.
fn place_of(s: &Vec<Session>, time: u64) -> (k: usize)
    ensures
        k == later_run(s@, time),
        k <= s@.len(),
{
    proof {
        lemma_later_run(s@, time);
    }
    let mut k: usize = 0;
    while k < s.len() && s[k].updated_at > time
        invariant
            k <= s@.len(),
            forall|i: int| 0 <= i < k ==> (#[trigger] s@[i]).updated_at > time,
        decreases s@.len() - k,
    {
        k = k + 1;
    }
    k
}

/// A listing holds the sessions it was made of, each as often, and none comes before one that was
/// changed later.
pub proof fn law_listing(s: Seq<Session>)
    ensures
        listed(s).to_multiset() == s.to_multiset(),
        forall|i: int, j: int|
            0 <= i < j < listed(s).len() ==> (#[trigger] listed(s)[i]).updated_at
                >= (#[trigger] listed(s)[j]).updated_at,
    decreases s.len(),
{
    broadcast use vstd::seq_lib::group_to_multiset_ensures;

    if s.len() > 0 {
        let before = listed(s.drop_last());
        let last = s.last();
        let k = later_run(before, last.updated_at) as int;
        let after = listed(s);
        law_listing(s.drop_last());
        lemma_later_run(before, last.updated_at);
        assert(s =~= s.drop_last().push(last));
        assert forall|i: int, j: int| 0 <= i < j < after.len() implies (
        #[trigger] after[i]).updated_at >= (#[trigger] after[j]).updated_at by {
            let pi = if i < k {
                i
            } else {
                i - 1
            };
            let pj = if j < k {
                j
            } else {
                j - 1
            };
            if i != k && j != k {
                assert(after[i] == before[pi] && after[j] == before[pj]);
            } else if j == k {
                assert(after[i] == before[i]);
            } else {
                assert(after[j] == before[pj]);
                if pj > k {
                    assert(before[k].updated_at >= before[pj].updated_at);
                }
            }
        }
    }
}

/// A safe identifier names a file in the directory itself: what follows the directory in its path
/// has no separator and no step upwards.
pub proof fn law_safe_ids_stay_inside(id: Seq<char>)
    requires
        safe_id(id),
    ensures
        !(id + ".json"@).contains('/'),
        !text::contains_text(id, ".."@),
{
    reveal_strlit(".json");
    let name = id + ".json"@;
    if name.contains('/') {
        let i = choose|i: int| 0 <= i < name.len() && name[i] == '/';
        if i < id.len() {
            assert(id.contains(id[i]));
        } else {
            assert(".json"@[i - id.len()] == '/');
        }
    }
}


/// A session may go by any name of one character or more without a slash, a backslash, a nul or two
/// dots in a row, and by no other.
pub proof fn law_safe_ids(id: Seq<char>)
    ensures
        safe_id(id) <==> {
            &&& id.len() > 0
            &&& forall|i: int|
                0 <= i < id.len() ==> (#[trigger] id[i]) != '/' && id[i] != '\\' && id[i] != '\0'
            &&& forall|i: int, j: int|
                0 <= i < id.len() && j == i + 1 && j < id.len() ==> !((#[trigger] id[i]) == '.' && (
                #[trigger] id[j]) == '.')
        },
{
    reveal_strlit("..");
    let plain = forall|i: int|
        0 <= i < id.len() ==> (#[trigger] id[i]) != '/' && id[i] != '\\' && id[i] != '\0';
    let apart = forall|i: int, j: int|
        0 <= i < id.len() && j == i + 1 && j < id.len() ==> !((#[trigger] id[i]) == '.' && (
        #[trigger] id[j]) == '.');
    if safe_id(id) {
        assert forall|i: int| 0 <= i < id.len() implies (#[trigger] id[i]) != '/' && id[i] != '\\'
            && id[i] != '\0' by {
            assert(id.contains(id[i]));
        }
        assert forall|i: int, j: int|
            0 <= i < id.len() && j == i + 1 && j < id.len() implies !((#[trigger] id[i]) == '.' && (
        #[trigger] id[j]) == '.') by {
            if id[i] == '.' && id[j] == '.' {
                assert(id.subrange(i, i + 2) =~= ".."@);
                assert(text::occurs_at(id, ".."@, i));
            }
        }
    }
    if id.len() > 0 && plain && apart {
        if text::contains_text(id, ".."@) {
            let i = choose|i: int| text::occurs_at(id, ".."@, i);
            assert(id.subrange(i, i + 2)[0] == id[i] && id.subrange(i, i + 2)[1] == id[i + 1]);
            assert(".."@[0] == '.' && ".."@[1] == '.');
        }
    }
}

/// A name that is not allowed is refused by every operation in the same words, and nothing is read
/// or written for it.
pub proof fn law_refused_ids(
    m: SessionManager,
    id: &str,
    session: Session,
    file: SessionFile,
    now: u64,
    name: Option<&str>,
    owned: String,
    checked: Result<(), Error>,
    path: Result<String, Error>,
    lock: Result<String, Error>,
    plan: Result<SavePlan, Error>,
    made: Result<Session, Error>,
    loaded: Result<Session, Error>,
    grown: Result<Session, Error>,
    job: &str,
)
    requires
        !safe_id(id@),
        session.id@ == id@,
        owned@ == id@,
        call_ensures(validate_session_id, (id,), checked),
        call_ensures(SessionManager::session_path, (&m, id), path),
        call_ensures(SessionManager::lock_path, (&m, id), lock),
        call_ensures(SessionManager::save_session, (&m, &session), plan),
        call_ensures(SessionManager::create_session, (&m, owned, name, now), made),
        call_ensures(SessionManager::load_session, (&m, id, file), loaded),
        call_ensures(SessionManager::add_job, (&m, id, job, file, now), grown),
    ensures
        ({
            let words = "Session error: "@ + ("Invalid session ID '"@ + id@
                + "': must be non-empty without '/', '\\', NUL, or '..'"@);
            &&& checked is Err && (checked->Err_0).text() == words
            &&& path is Err && (path->Err_0).text() == words
            &&& lock is Err && (lock->Err_0).text() == words
            &&& plan is Err && (plan->Err_0).text() == words
            &&& made is Err && (made->Err_0).text() == words
            &&& loaded is Err && (loaded->Err_0).text() == words
            &&& grown is Err && (grown->Err_0).text() == words
        }),
{
}

/// A session stands in a file of its name in the directory, is written beside it first, and is
/// locked by another beside it.
pub proof fn law_session_places(
    m: SessionManager,
    id: &str,
    session: Session,
    path: Result<String, Error>,
    lock: Result<String, Error>,
    plan: Result<SavePlan, Error>,
)
    requires
        safe_id(id@),
        session.id@ == id@,
        call_ensures(SessionManager::session_path, (&m, id), path),
        call_ensures(SessionManager::lock_path, (&m, id), lock),
        call_ensures(SessionManager::save_session, (&m, &session), plan),
    ensures
        path is Ok && (path->Ok_0)@ == utils::below(m.dir(), id@ + ".json"@),
        lock is Ok && (lock->Ok_0)@ == utils::below(m.dir(), id@ + ".lock"@),
        plan is Ok && (plan->Ok_0).path@ == (path->Ok_0)@,
        (plan->Ok_0).tmp_path@ == utils::below(m.dir(), id@ + ".json.tmp"@),
{
}

/// A new session is active, bears the name that was given and holds no job.
pub proof fn law_new_session(
    m: SessionManager,
    id: String,
    name: Option<&str>,
    now: u64,
    r: Result<Session, Error>,
)
    requires
        safe_id(id@),
        call_ensures(SessionManager::create_session, (&m, id, name, now), r),
    ensures
        r is Ok,
        (r->Ok_0).id@ == id@,
        name is None ==> (r->Ok_0).name is None,
        name is Some ==> (r->Ok_0).name is Some && ((r->Ok_0).name->0)@ == (name->0)@,
        (r->Ok_0).job_ids@.len() == 0,
        (r->Ok_0).created_at == now,
        (r->Ok_0).updated_at == now,
        (r->Ok_0).status == SessionStatus::Active,
{
}

/// What is loaded is what is in the file, and a file that cannot be read says why.
pub proof fn law_loading(
    m: SessionManager,
    id: &str,
    file: SessionFile,
    r: Result<Session, Error>,
)
    requires
        safe_id(id@),
        call_ensures(SessionManager::load_session, (&m, id, file), r),
    ensures
        file is Read ==> r is Ok && r->Ok_0 == file->Read_0,
        file is Unreadable ==> r is Err && (r->Err_0).text() == "Session error: "@ + (
        "Session not found "@ + id@ + ": "@ + (file->Unreadable_0)@),
        file is Malformed ==> r is Err && (r->Err_0).text() == "Session error: "@ + (
        "Failed to parse session: "@ + (file->Malformed_0)@),
{
}

/// A job is added behind those that are there; only the time of the session changes besides.
pub proof fn law_added_jobs(
    m: SessionManager,
    id: &str,
    job: &str,
    before: Session,
    now: u64,
    r: Result<Session, Error>,
    i: int,
)
    requires
        safe_id(id@),
        call_ensures(
            SessionManager::add_job,
            (&m, id, job, SessionFile::Read(before), now),
            r,
        ),
    ensures
        r is Ok,
        ({
            let after = r->Ok_0;
            &&& after.job_ids@.len() == before.job_ids@.len() + 1
            &&& 0 <= i < before.job_ids@.len() ==> after.job_ids@[i]@ == before.job_ids@[i]@
            &&& after.job_ids@.last()@ == job@
            &&& after.updated_at == now
            &&& after.created_at == before.created_at
            &&& after.id == before.id
            &&& after.name == before.name
            &&& after.status == before.status
        }),
{
    let after = r->Ok_0;
    let a = text::texts(after.job_ids@);
    let b = text::texts(before.job_ids@);
    assert(a.len() == after.job_ids@.len() && b.len() == before.job_ids@.len());
    assert(a == b.push(job@));
    assert(a[a.len() - 1] == after.job_ids@.last()@);
    if 0 <= i < before.job_ids@.len() {
        assert(a[i] == after.job_ids@[i]@ && b[i] == before.job_ids@[i]@);
    }
}

/// A file of a session has a name before its ending.
pub proof fn law_session_files(front: Seq<char>, name: Seq<char>)
    ensures
        session_file_name(front + ".json"@) <==> front.len() > 0,
        session_file_name(name) ==> name == name.take(name.len() - 5) + ".json"@,
{
    reveal_strlit(".json");
    assert((front + ".json"@).skip(front.len() as int) =~= ".json"@);
    if session_file_name(name) {
        assert(name =~= name.take(name.len() - 5) + name.skip(name.len() - 5));
    }
}

/// The sessions of a directory are those that could be read out of its session files.
pub proof fn law_sessions_in(
    a: Seq<(String, Option<Session>)>,
    b: Seq<(String, Option<Session>)>,
    f: (String, Option<Session>),
)
    ensures
        sessions_in(a + b) == sessions_in(a) + sessions_in(b),
        f.1 is Some && session_file_name(f.0@) ==> sessions_in(seq![f]) == seq![f.1->0],
        f.1 is None || !session_file_name(f.0@) ==> sessions_in(seq![f]) == Seq::<Session>::empty(),
    decreases b.len(),
{
    assert(seq![f].drop_last() =~= Seq::<(String, Option<Session>)>::empty());
    assert(sessions_in(seq![f].drop_last()) == Seq::<Session>::empty());
    if f.1 is Some {
        assert(Seq::<Session>::empty().push(f.1->0) =~= seq![f.1->0]);
    }
    if b.len() == 0 {
        assert(a + b =~= a);
        assert(sessions_in(a) + sessions_in(b) =~= sessions_in(a));
    } else {
        law_sessions_in(a, b.drop_last(), f);
        assert((a + b).drop_last() =~= a + b.drop_last());
        assert((a + b).last() == b.last());
        if b.last().1 is Some {
            assert(sessions_in(a) + sessions_in(b.drop_last()).push(b.last().1->0) =~= (
            sessions_in(a) + sessions_in(b.drop_last())).push(b.last().1->0));
        }
    }
}


/// A session that was changed no earlier than any before it is listed first.
pub proof fn law_latest_first(s: Seq<Session>, x: Session)
    requires
        forall|i: int| 0 <= i < s.len() ==> (#[trigger] s[i]).updated_at <= x.updated_at,
    ensures
        listed(s.push(x)) == seq![x] + listed(s),
{
    broadcast use vstd::seq_lib::group_to_multiset_ensures;

    let before = listed(s);
    assert(s.push(x).drop_last() =~= s);
    law_listing(s);
    if before.len() > 0 {
        assert(before.to_multiset().contains(before[0]));
        assert(s.contains(before[0]));
    }
    assert(later_run(before, x.updated_at) == 0);
    assert(before.insert(0, x) =~= seq![x] + before);
}

} // verus!
