use runtimo_core::config::{Environment, RuntimoConfig};
use runtimo_core::validation::path::{
    normalize_path, path_in_prefix, validate_path, PathContext, PathFacts, PathPolicy,
};

fn policy() -> PathPolicy {
    PathPolicy {
        allowed: RuntimoConfig::unset().get_allowed_prefixes(&Environment::default()),
        restricted: true,
    }
}

fn nothing_there() -> PathFacts {
    PathFacts {
        exists: false,
        canonical: Err("No such file or directory (os error 2)".to_string()),
        parent_exists: false,
        canonical_parent: Err("No such file or directory (os error 2)".to_string()),
        file_name: None,
        resolved_exists: false,
        resolved_is_file: false,
    }
}

fn file_at(canonical: &str) -> PathFacts {
    PathFacts {
        exists: true,
        canonical: Ok(canonical.to_string()),
        resolved_exists: true,
        resolved_is_file: true,
        ..nothing_there()
    }
}

fn new_file_in(parent: &str, name: &str) -> PathFacts {
    PathFacts {
        parent_exists: true,
        canonical_parent: Ok(parent.to_string()),
        file_name: Some(name.to_string()),
        ..nothing_there()
    }
}

fn for_writes() -> PathContext {
    PathContext { require_exists: false, require_file: false, ..Default::default() }
}

#[test]
fn rejects_empty_path() {
    let ctx = PathContext::default();
    assert!(validate_path("", &ctx, &policy(), &nothing_there()).is_err());
}

#[test]
fn rejects_traversal() {
    let ctx = PathContext::default();
    assert!(validate_path("/tmp/../etc/passwd", &ctx, &policy(), &file_at("/etc/passwd")).is_err());
}

#[test]
fn accepts_existing_tmp_file() {
    let ctx = PathContext::default();
    let result = validate_path(
        "/tmp/runtimo_val_test.txt",
        &ctx,
        &policy(),
        &file_at("/tmp/runtimo_val_test.txt"),
    );
    assert!(result.is_ok(), "expected Ok, got {:?}", result);
    assert_eq!(result.unwrap(), "/tmp/runtimo_val_test.txt");
}

#[test]
fn accepts_nonexistent_tmp_file_for_writes() {
    let ctx = for_writes();
    let result = validate_path(
        "/tmp/runtimo_new_file_test.txt",
        &ctx,
        &policy(),
        &new_file_in("/tmp", "runtimo_new_file_test.txt"),
    );
    assert!(result.is_ok(), "expected Ok, got {:?}", result);
}

#[test]
fn rejects_write_outside_allowed() {
    let ctx = for_writes();
    let result = validate_path("/etc/shadow", &ctx, &policy(), &file_at("/etc/shadow"));
    assert!(result.is_err());
    assert!(result.unwrap_err().contains("outside allowed"));
}

#[test]
fn rejects_symlink_escape() {
    let ctx = PathContext::default();
    let result =
        validate_path("/tmp/runtimo_symlink_test", &ctx, &policy(), &file_at("/etc/hostname"));
    assert!(result.is_err(), "symlink escape should be rejected");
}

#[test]
fn env_var_extends_allowed_prefixes() {
    let ctx = for_writes();
    let facts = nothing_there();
    assert!(validate_path("/srv/myapp/config", &ctx, &policy(), &facts).is_err());

    let env = Environment { allowed_paths: Some("/srv:/opt".to_string()), ..Default::default() };
    let wider = PathPolicy {
        allowed: RuntimoConfig::unset().get_allowed_prefixes(&env),
        restricted: true,
    };
    assert!(validate_path("/srv/myapp/config", &ctx, &wider, &facts).is_ok());
    assert!(validate_path("/opt/tools/bin", &ctx, &wider, &facts).is_ok());

    assert!(validate_path("/srv/myapp/config", &ctx, &policy(), &facts).is_err());
}

#[test]
fn error_message_does_not_leak_allowed_prefixes() {
    let ctx = for_writes();
    let err =
        validate_path("/etc/shadow", &ctx, &policy(), &file_at("/etc/shadow")).unwrap_err();
    assert!(!err.contains("/tmp"), "error should not leak /tmp as allowed");
    assert!(!err.contains("/home"), "error should not leak /home as allowed");
    assert!(err.contains("outside allowed directories"));
}

#[test]
fn rejects_null_byte() {
    let ctx = PathContext::default();
    let result =
        validate_path("/tmp/safe.txt\0/etc/shadow", &ctx, &policy(), &nothing_there());
    assert!(result.is_err());
    assert!(result.unwrap_err().contains("null byte"));
}

#[test]
fn accepts_non_ascii_path() {
    let ctx = PathContext::default();
    let result = validate_path("/tmp/café.txt", &ctx, &policy(), &file_at("/tmp/café.txt"));
    assert!(result.is_ok(), "non-ASCII path should be allowed, got: {:?}", result);
}

#[test]
fn rejects_non_ascii_unicode_traversal() {
    let ctx = PathContext::default();
    let result =
        validate_path("/tmp/\u{00e9}../etc/passwd", &ctx, &policy(), &nothing_there());
    assert!(result.is_err());
    let message = result.unwrap_err();
    assert!(!message.contains("non-ASCII"), "should not reject for non-ASCII");
    assert_eq!(message, "path traversal not allowed");
}

#[test]
fn nfc_normalizes_path() {
    let ctx = for_writes();
    let result = validate_path(
        "/tmp/normal.txt",
        &ctx,
        &policy(),
        &new_file_in("/tmp", "normal.txt"),
    );
    assert!(result.is_ok());
    // A letter and its accent become one character.
    assert_eq!(normalize_path("/tmp/cafe\u{301}.txt").unwrap(), "/tmp/caf\u{e9}.txt");
    assert_eq!(normalize_path("/tmp/normal.txt").unwrap(), "/tmp/normal.txt");
}

#[test]
fn rejects_prefix_bypass() {
    let ctx = for_writes();
    let result = validate_path("/tmpfoo/bar.txt", &ctx, &policy(), &nothing_there());
    assert!(result.is_err(), "/tmpfoo should not match /tmp prefix");
    assert!(result.unwrap_err().contains("outside allowed"));
}

#[test]
fn accepts_valid_prefix_subdir() {
    let ctx = for_writes();
    let result = validate_path("/tmp/subdir/file.txt", &ctx, &policy(), &nothing_there());
    assert!(result.is_ok(), "/tmp/subdir should match /tmp prefix");
}

#[test]
fn test_path_in_prefix() {
    assert!(path_in_prefix("/tmp", "/tmp"));
    assert!(path_in_prefix("/tmp/foo", "/tmp"));
    assert!(path_in_prefix("/tmp/foo/bar", "/tmp"));
    assert!(!path_in_prefix("/tmpfoo", "/tmp"));
    assert!(!path_in_prefix("/tmpfoo/bar", "/tmp"));
    assert!(!path_in_prefix("/etc/shadow", "/tmp"));
    assert!(path_in_prefix("/home/user/file", "/home"));
    assert!(!path_in_prefix("/homeless/file", "/home"));
}

#[test]
fn every_refusal_says_why() {
    let ctx = PathContext::default();
    let gone = nothing_there();
    assert_eq!(
        validate_path("", &ctx, &policy(), &gone),
        Err("path is empty".to_string())
    );
    assert_eq!(
        validate_path("/tmp/a\tb", &ctx, &policy(), &gone),
        Err("path contains control character".to_string())
    );
    assert_eq!(
        validate_path("/tmp/a", &ctx, &policy(), &gone),
        Err("path does not exist: /tmp/a".to_string())
    );
    assert_eq!(
        validate_path("a", &for_writes(), &policy(), &gone),
        Err("cannot resolve relative path without CWD: a".to_string())
    );
    let looping = PathFacts { exists: true, canonical: Err("loop".to_string()), ..nothing_there() };
    assert_eq!(
        validate_path("/tmp/a", &ctx, &policy(), &looping),
        Err("canonicalize failed: loop".to_string())
    );
    let directory = PathFacts { resolved_is_file: false, ..file_at("/tmp/d") };
    assert_eq!(
        validate_path("/tmp/d", &ctx, &policy(), &directory),
        Err("not a file: /tmp/d".to_string())
    );
    let free = PathPolicy { allowed: Vec::new(), restricted: false };
    assert_eq!(
        validate_path("/etc/shadow", &ctx, &free, &file_at("/etc/shadow")),
        Ok("/etc/shadow".to_string())
    );
}

#[test]
fn context_adds_directories() {
    let ctx = PathContext {
        allowed_prefixes: vec![" /srv ".to_string()],
        require_exists: false,
        require_file: false,
    };
    assert!(validate_path("/srv/app", &ctx, &policy(), &nothing_there()).is_ok());
}
