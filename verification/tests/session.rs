use runtimo_core::error::Error;
use runtimo_core::session::{
    validate_session_id, Session, SessionFile, SessionManager, SessionStatus,
};

fn manager() -> SessionManager {
    SessionManager::new("/data/sessions".to_string())
}

fn session(id: &str, created_at: u64) -> Session {
    let mut s = manager().create_session(id.to_string(), None, created_at).unwrap();
    s.updated_at = created_at;
    s
}

const UNSAFE_IDS: [&str; 8] =
    ["../victim", "..", "a/b", "a\\b", "/etc/passwd", "..\\..", "bad\0id", ""];

#[test]
fn creates_session() {
    let session = manager().create_session("0a1b".to_string(), Some("test"), 7).unwrap();
    assert!(!session.id.is_empty());
    assert_eq!(session.name, Some("test".to_string()));
    assert_eq!(session.job_ids.len(), 0);
    assert_eq!(session.created_at, 7);
    assert_eq!(session.updated_at, 7);
    assert_eq!(session.status, SessionStatus::Active);
    assert_eq!(SessionStatus::default(), SessionStatus::Active);
}

#[test]
fn adds_job_to_session() {
    let mgr = manager();
    let session = session("s1", 5);
    let saved = mgr.add_job("s1", "job-123", SessionFile::Read(session), 9).unwrap();
    let loaded = mgr.load_session("s1", SessionFile::Read(saved)).unwrap();
    assert_eq!(loaded.job_ids.len(), 1);
    assert_eq!(loaded.job_ids[0], "job-123");
    assert_eq!(loaded.created_at, 5);
    assert_eq!(loaded.updated_at, 9);
}

#[test]
fn lists_sessions() {
    let files = vec![
        ("a.json".to_string(), Some(session("a", 1))),
        ("a.lock".to_string(), None),
        ("b.json".to_string(), Some(session("b", 2))),
        ("c.json".to_string(), None),
    ];
    let sessions = manager().list_sessions(files);
    assert_eq!(sessions.len(), 2);
    // The latest change comes first.
    assert_eq!(sessions[0].id, "b");
    assert_eq!(sessions[1].id, "a");
}

#[test]
fn rejects_traversal_session_ids() {
    let mgr = manager();
    for id in UNSAFE_IDS {
        assert!(
            mgr.load_session(id, SessionFile::Read(session("x", 1))).is_err(),
            "'{}' must be rejected on load",
            id
        );
        assert!(
            mgr.add_job(id, "job-1", SessionFile::Read(session("x", 1)), 2).is_err(),
            "'{}' must be rejected on add_job",
            id
        );
        assert!(validate_session_id(id).is_err());
        assert!(mgr.session_path(id).is_err());
        assert!(mgr.lock_path(id).is_err());
        assert!(mgr.create_session(id.to_string(), None, 1).is_err());
    }
}

#[test]
fn test_add_job_concurrent() {
    // Under the lock one addition works on what the other has written.
    let mgr = manager();
    let first = mgr.add_job("s", "job-1", SessionFile::Read(session("s", 1)), 2).unwrap();
    let loaded = mgr.add_job("s", "job-2", SessionFile::Read(first), 3).unwrap();
    assert_eq!(loaded.job_ids.len(), 2, "both jobs should be present");
    assert!(loaded.job_ids.contains(&"job-1".to_string()));
    assert!(loaded.job_ids.contains(&"job-2".to_string()));
}

#[test]
fn rejects_traversal_session_id_on_save() {
    let mut session = session("s", 1);
    session.id = "../victim".to_string();
    let result = manager().save_session(&session);
    assert!(result.is_err(), "save_session must reject traversal ids");
}

#[test]
fn files_lie_in_the_directory() {
    let mgr = manager();
    assert_eq!(mgr.session_path("s").unwrap(), "/data/sessions/s.json");
    assert_eq!(mgr.lock_path("s").unwrap(), "/data/sessions/s.lock");
    let plan = mgr.save_session(&session("s", 1)).unwrap();
    assert_eq!(plan.path, "/data/sessions/s.json");
    assert_eq!(plan.tmp_path, "/data/sessions/s.json.tmp");
}

#[test]
fn unusable_files_say_why() {
    let mgr = manager();
    match mgr.load_session("s", SessionFile::Unreadable("gone".to_string())) {
        Err(Error::SessionError(m)) => assert_eq!(m, "Session not found s: gone"),
        _ => panic!("an unreadable file is no session"),
    }
    match mgr.load_session("s", SessionFile::Malformed("torn".to_string())) {
        Err(Error::SessionError(m)) => assert_eq!(m, "Failed to parse session: torn"),
        _ => panic!("a torn file is no session"),
    }
}
