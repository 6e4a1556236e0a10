use runtimo_core::capability::Output;
use runtimo_core::digest::hex_digest_of;
use runtimo_core::error::Error;
use runtimo_core::job::{Job, JobId, JobState};
use runtimo_core::json::{rank_of_natural, Number, Object, Value};
use runtimo_core::schema::SchemaValidator;
use runtimo_core::test_isolation::EnvGuard;
use runtimo_core::text;
use runtimo_core::utils;
use runtimo_core::wal::event_lines;

fn job() -> Job {
    let id = JobId::new(&Some(vec![0x0a, 0xff]), 1);
    Job::new("FileRead".to_string(), Value::Null, false, id, 100)
}

#[test]
fn jobs_take_only_allowed_steps() {
    let mut j = job();
    assert_eq!(j.id.as_str(), "0aff");
    assert_eq!(j.state, JobState::Pending);
    let refused = j.transition_to(JobState::Completed, 101).unwrap_err();
    assert_eq!(refused, "Invalid state transition: Pending -> Completed");
    assert_eq!(j.updated_at, 100);
    for next in [
        JobState::Validating,
        JobState::Validated,
        JobState::Executing,
        JobState::Completed,
        JobState::RolledBack,
    ] {
        assert!(j.transition_to(next, 102).is_ok());
    }
    assert_eq!(j.updated_at, 102);
    assert!(j.transition_to(JobState::Pending, 103).is_err());
}

#[test]
fn errors_have_words() {
    let e = Error::InvalidTransition { from: JobState::Pending, to: JobState::Failed };
    assert_eq!(e.message(), "Invalid job state transition: Pending -> Failed");
    assert!(Error::WalError("disk full".to_string()).message().contains("disk full"));
}

fn object(pairs: Vec<(&str, Value)>) -> Value {
    let mut o = Object::new();
    for (k, v) in pairs {
        o = o.with(k.to_string(), v);
    }
    Value::Object(o)
}

#[test]
fn schemas_ask_for_type_and_keys() {
    let schema = object(vec![
        ("type", Value::from_text("object")),
        ("required", Value::Array(vec![Value::from_text("path")])),
    ]);
    let good = object(vec![("path", Value::from_text("/tmp"))]);
    assert!(SchemaValidator::validate(&good, &schema).is_ok());
    match SchemaValidator::validate(&Value::from_natural(1), &schema) {
        Err(Error::SchemaValidationFailed(m)) => {
            assert_eq!(m, "Expected type 'object', got 'number'");
        }
        _ => panic!("a number is no object"),
    }
    match SchemaValidator::validate(&object(vec![]), &schema) {
        Err(Error::SchemaValidationFailed(m)) => assert!(m.contains("path")),
        _ => panic!("a required key is missing"),
    }
}

#[test]
fn places_come_from_settings() {
    let home = Some("/home/a".to_string());
    assert_eq!(utils::data_dir(&Some("/x".to_string()), &home), "/x/runtimo");
    assert_eq!(utils::data_dir(&Some("x".to_string()), &home), "/home/a/.local/share/runtimo");
    assert_eq!(utils::data_dir(&None, &None), "/tmp/runtimo");
    assert_eq!(utils::wal_path(&None, "/d"), "/d/wal.jsonl");
    assert_eq!(utils::wal_path(&Some("/w".to_string()), "/d"), "/w");
    assert_eq!(utils::backup_dir("/d"), "/d/backups");
}

#[test]
fn identifiers_are_hexadecimal() {
    assert_eq!(utils::generate_id(&Some(vec![0, 1, 0xab]), 0), "0001ab");
    assert_eq!(utils::generate_id(&None, 0x1f3), "1f3");
    assert_eq!(utils::hex_of_number(u128::MAX), "f".repeat(32));
}

#[test]
fn digests_are_those_of_sha_256() {
    assert_eq!(
        hex_digest_of(b"abc"),
        "ba7816bf8f01cfea414140de5dae2223b00361a396177a9cb410ff61f20015ad"
    );
    assert_eq!(
        hex_digest_of(b""),
        "e3b0c44298fc1c149afbf4c8996fb92427ae41e4649b934ca495991b7852b855"
    );
}

#[test]
fn values_are_written_as_serde_json_does() {
    let v = object(vec![
        ("b", Value::Array(vec![Value::Null, Value::Bool(true), Value::from_natural(7)])),
        ("a", Value::from_text("q\"\\\n\u{1}é")),
        ("n", Value::Number(Number::NegInt(-3))),
    ]);
    let theirs: serde_json::Value =
        serde_json::from_str("{\"n\":-3,\"a\":\"q\\\"\\\\\\n\\u0001é\",\"b\":[null,true,7]}").unwrap();
    assert_eq!(v.to_text(), serde_json::to_string(&theirs).unwrap());
    assert_eq!(v.show(), format!("{:?}", theirs));
}

#[test]
fn objects_keep_one_value_per_key() {
    let v = object(vec![
        ("k", Value::from_natural(1)),
        ("a", Value::from_natural(2)),
        ("k", Value::from_natural(3)),
    ]);
    assert_eq!(v.to_text(), "{\"a\":2,\"k\":3}");
    assert_eq!(v.get("k").unwrap().as_u64(), Some(3));
    assert!(v.get("x").is_none());
    assert!(v.equals(&object(vec![("a", Value::from_natural(2)), ("k", Value::from_natural(3))])));
}

#[test]
fn naturals_have_the_bits_of_their_double() {
    for n in [
        0u64,
        1,
        2,
        3,
        1 << 53,
        (1 << 53) + 1,
        (1 << 53) + 3,
        u64::MAX,
        u64::MAX - 1024,
        123_456_789_123_456_789,
    ] {
        assert_eq!(rank_of_natural(n), (n as f64).to_bits() as i64);
    }
}

#[test]
fn texts_are_handled_as_std_does() {
    let s = " \u{a0}\tone  two\u{3000}three \n";
    assert_eq!(text::trim(s), s.trim());
    assert_eq!(text::split_words(s), s.split_whitespace().collect::<Vec<&str>>());
    let l = "a\r\nb\n\nc\r";
    assert_eq!(text::split_lines(l), l.lines().collect::<Vec<&str>>());
    assert_eq!(text::split("a:b::", ':'), vec!["a", "b", "", ""]);
    for c in (0..0x3100u32).filter_map(char::from_u32) {
        assert_eq!(text::whitespace(c), c.is_whitespace());
    }
    for (t, max) in [("12", 255u64), ("+7", 255), ("256", 255), ("-1", 255), ("", 255), ("1x", 255)]
    {
        let std: Option<u64> = t.parse::<u8>().ok().map(u64::from);
        assert_eq!(text::parse_number(t, 10, max), std, "{t}");
        if let Err(e) = t.parse::<u8>() {
            assert_eq!(text::number_fault(t, max), e.to_string(), "{t}");
        }
    }
    assert_eq!(text::parse_number("1F", 16, 255), Some(31));
    assert_eq!(text::cut("aéb", 2), "a");
    assert_eq!(text::cut("aéb", 3), "aé");
    assert_eq!(text::signed_text(i64::MIN), i64::MIN.to_string());
    assert!(text::less("a", "ab") && text::less("Z", "a") && !text::less("b", "b"));
}

#[test]
fn outputs_are_logged_with_their_status() {
    let v = Output::error("no".to_string(), "why".to_string()).to_value();
    assert_eq!(
        v.to_text(),
        "{\"data\":null,\"error\":\"why\",\"output\":\"no\",\"status\":\"error\"}"
    );
}

#[test]
fn captured_variables_are_restored() {
    let guard = EnvGuard::new(Some("90".to_string()), None, Some("A".to_string()), None);
    assert_eq!(guard.pressure(), Some("90"));
    assert_eq!(guard.ceiling(), None);
    assert_eq!(guard.dal(), Some("A"));
    assert_eq!(guard.semantic_policy(), None);
    let plan = guard.restorations();
    assert_eq!(plan.len(), 4);
    assert_eq!(plan[0].name, "RUNTIMO_TEST_PRESSURE");
    assert_eq!(plan[0].value.as_deref(), Some("90"));
    assert_eq!(plan[1].name, "RUNTIMO_MEMORY_CEILING_BYTES");
    assert!(plan[1].value.is_none());
    assert_eq!(plan[2].name, "RUNTIMO_DAL");
    assert_eq!(plan[3].name, "RUNTIMO_SEMANTIC_POLICY");
}

#[test]
fn json_strings_are_escaped() {
    let s = "a\"b\\c\u{8}\t\n\u{c}\r\u{0}\u{1f}\u{7f} \u{e9}/";
    assert_eq!(
        Value::from_text(s).to_text(),
        "\"a\\\"b\\\\c\\b\\t\\n\\f\\r\\u0000\\u001f\u{7f} \u{e9}/\""
    );
}

#[test]
fn blank_lines_of_a_log_hold_no_event() {
    assert_eq!(event_lines("{\"a\":1}\r\n\n  \t\n {\"b\":2} \nlast"), vec!["{\"a\":1}", " {\"b\":2} ", "last"]);
    assert!(event_lines("").is_empty());
    assert!(event_lines(" \n\n").is_empty());
}
