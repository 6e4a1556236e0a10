use runtimo_core::json::{Double, Number, Object, Value};
use runtimo_core::oracle::benchmark::{bench_spec, make_events};
use runtimo_core::oracle::eval::compare_values;
use runtimo_core::oracle::property::{
    extract_field, parse_spec, validate_field_path, Op, ParseSpecError, Predicate, PropertySpec,
    Quantifier, SpecWrapper,
};
use runtimo_core::oracle::{evaluate, evaluate_items, evaluate_v2, OracleError, Verdict};
use runtimo_core::wal::{WalEvent, WalEventType};

fn text(s: &str) -> Value {
    Value::from_text(s)
}

fn sample_event() -> WalEvent {
    WalEvent {
        seq: 1,
        ts: 1715800000,
        event_type: WalEventType::JobStarted,
        job_id: "test-job-42".to_string(),
        capability: Some("FileRead".to_string()),
        output: Some(Value::Object(
            Object::new()
                .with(
                    "data".to_string(),
                    Value::Object(
                        Object::new().with("path".to_string(), text("/tmp/test.txt")),
                    ),
                )
                .with("status".to_string(), text("ok")),
        )),
        ..Default::default()
    }
}

fn value_of(v: &serde_json::Value) -> Value {
    match v {
        serde_json::Value::Null => Value::Null,
        serde_json::Value::Bool(b) => Value::Bool(*b),
        serde_json::Value::Number(n) => match n.as_u64() {
            Some(u) => Value::from_natural(u),
            None => match n.as_i64() {
                Some(i) => Value::Number(Number::NegInt(i)),
                None => double(n.as_f64().unwrap()),
            },
        },
        serde_json::Value::String(s) => text(s),
        serde_json::Value::Array(a) => Value::Array(a.iter().map(value_of).collect()),
        serde_json::Value::Object(o) => {
            let mut r = Object::new();
            for (k, v) in o {
                r = r.with(k.clone(), value_of(v));
            }
            Value::Object(r)
        }
    }
}

fn double(x: f64) -> Value {
    let bits = (x.to_bits() & 0x7fff_ffff_ffff_ffff) as i64;
    let rank = if x < 0.0 { -bits } else { bits };
    Value::Number(Number::Float(Double { rank, text: serde_json::to_string(&x).unwrap() }))
}

fn decode(input: &str) -> Result<SpecWrapper, String> {
    let v: serde_json::Value = serde_json::from_str(input).map_err(|e| e.to_string())?;
    let mut predicates = Vec::new();
    for p in v["predicates"].as_array().ok_or("missing field `predicates`")? {
        let name = p["op"].as_str().ok_or("missing field `op`")?;
        predicates.push(Predicate {
            field: p["field"].as_str().ok_or("missing field `field`")?.to_string(),
            op: Op::parse(name).ok_or(format!("unknown variant `{}`", name))?,
            value: value_of(&p["value"]),
        });
    }
    Ok(SpecWrapper {
        name: v["name"].as_str().ok_or("missing field `name`")?.to_string(),
        predicates,
        select: Vec::new(),
        quantifier: Quantifier::default(),
        version: None,
    })
}

#[test]
fn test_oracle_error_parse_error() {
    let err = OracleError::ParseError {
        field: "event_type".to_string(),
        message: "invalid field".to_string(),
    };
    assert!(err.message().contains("Parse error"));
    assert_eq!(err.message(), "Parse error on field 'event_type': invalid field");
}

#[test]
fn test_oracle_error_eval_error() {
    let err = OracleError::EvalError {
        property: "test-prop".to_string(),
        message: "internal error".to_string(),
    };
    assert!(err.message().contains("Evaluation error"));
}

#[test]
fn test_oracle_error_bundle_error() {
    let err = OracleError::BundleError {
        path: "/tmp/bundle".to_string(),
        message: "not found".to_string(),
    };
    assert!(err.message().contains("Bundle error"));
}

#[test]
fn test_parse_valid_spec() {
    let input = r#"{"name":"test-prop","predicates":[{"field":"event_type","op":"Eq","value":"job_started"}]}"#;
    let spec = parse_spec(decode(input)).unwrap();
    assert_eq!(spec.predicates.len(), 1);
    assert_eq!(spec.predicates[0].field, "event_type");
    assert_eq!(spec.predicates[0].op, Op::Eq);
    assert!(spec.predicates[0].value.equals(&text("job_started")));
    assert_eq!(spec.name, "test-prop");
}

#[test]
fn test_parse_empty_predicates() {
    let input = r#"{"name":"empty-prop","predicates":[]}"#;
    let spec = parse_spec(decode(input)).unwrap();
    assert!(spec.predicates.is_empty());
}

#[test]
fn test_parse_invalid_field_path() {
    let input =
        r#"{"name":"test","predicates":[{"field":"unknown_field","op":"Eq","value":"test"}]}"#;
    let result = parse_spec(decode(input));
    assert!(result.is_err());
}

#[test]
fn test_parse_output_field_path() {
    let input = r#"{"name":"test","predicates":[{"field":"output.data.path","op":"Eq","value":"/tmp/test.txt"}]}"#;
    let spec = parse_spec(decode(input)).unwrap();
    assert_eq!(spec.predicates[0].field, "output.data.path");
}

#[test]
fn test_parse_invalid_op_name() {
    let input =
        r#"{"name":"test","predicates":[{"field":"event_type","op":"Bogus","value":"test"}]}"#;
    let result = parse_spec(decode(input));
    assert!(result.is_err());
}

#[test]
fn test_op_parse() {
    assert!(matches!(Op::parse("Eq"), Some(Op::Eq)));
    assert!(matches!(Op::parse("Regex"), Some(Op::Regex)));
    assert!(Op::parse("Bogus").is_none());
}

#[test]
fn test_extract_event_type() {
    let event = sample_event();
    let val = extract_field(&event, "event_type").unwrap();
    assert!(val.equals(&text("job_started")));
}

#[test]
fn test_extract_job_id() {
    let event = sample_event();
    let val = extract_field(&event, "job_id").unwrap();
    assert!(val.equals(&text("test-job-42")));
}

#[test]
fn test_extract_seq() {
    let event = sample_event();
    let val = extract_field(&event, "seq").unwrap();
    assert!(val.equals(&Value::from_natural(1)));
}

#[test]
fn test_extract_output_nested() {
    let event = sample_event();
    let val = extract_field(&event, "output.data.path").unwrap();
    assert!(val.equals(&text("/tmp/test.txt")));
}

#[test]
fn test_extract_watermark_returns_none() {
    let event = sample_event();
    let val = extract_field(&event, "watermark");
    assert!(val.is_none());
}

#[test]
fn test_extract_unknown_field_returns_none() {
    let event = sample_event();
    let val = extract_field(&event, "nonexistent");
    assert!(val.is_none());
}

#[test]
fn test_validate_field_path_exact_matches() {
    assert!(validate_field_path("event_type").is_ok());
    assert!(validate_field_path("job_id").is_ok());
    assert!(validate_field_path("seq").is_ok());
    assert!(validate_field_path("watermark").is_ok());
}

#[test]
fn test_validate_field_path_output_prefix() {
    assert!(validate_field_path("output.data").is_ok());
    assert!(validate_field_path("output.").is_err());
}

#[test]
fn test_validate_field_path_invalid() {
    assert!(validate_field_path("unknown").is_err());
}

#[test]
fn test_empty_spec_satisfied() {
    let spec = PropertySpec {
        name: "empty-prop".to_string(),
        predicates: vec![],
        select: vec![],
        quantifier: Quantifier::default(),
        version: None,
    };
    let events = vec![sample_event()];
    let result = evaluate(&events, &spec).unwrap();
    assert_eq!(result.verdict, Verdict::Satisfied);
    assert!(!result.detail.is_empty());
}

#[test]
fn test_satisfied_eq_predicate() {
    let spec = PropertySpec {
        name: "event-type-check".to_string(),
        predicates: vec![Predicate {
            field: "event_type".to_string(),
            op: Op::Eq,
            value: text("job_started"),
        }],
        select: vec![],
        quantifier: Quantifier::default(),
        version: None,
    };
    let events = vec![sample_event()];
    let result = evaluate(&events, &spec).unwrap();
    assert_eq!(result.verdict, Verdict::Satisfied);
}

#[test]
fn test_violated_eq_predicate() {
    let spec = PropertySpec {
        name: "event-type-check".to_string(),
        predicates: vec![Predicate {
            field: "event_type".to_string(),
            op: Op::Eq,
            value: text("job_completed"),
        }],
        select: vec![],
        quantifier: Quantifier::default(),
        version: None,
    };
    let events = vec![sample_event()];
    let result = evaluate(&events, &spec).unwrap();
    assert_eq!(result.verdict, Verdict::Violated);
}

#[test]
fn test_unknown_field_returns_error_verdict() {
    let spec = PropertySpec {
        name: "unknown-field-check".to_string(),
        predicates: vec![Predicate {
            field: "nonexistent_field".to_string(),
            op: Op::Eq,
            value: text("test"),
        }],
        select: vec![],
        quantifier: Quantifier::default(),
        version: None,
    };
    let events = vec![sample_event()];
    let result = evaluate(&events, &spec).unwrap();
    assert_eq!(result.verdict, Verdict::Error);
}

#[test]
fn test_watermark_field_returns_error_verdict() {
    let spec = PropertySpec {
        name: "watermark-check".to_string(),
        predicates: vec![Predicate {
            field: "watermark".to_string(),
            op: Op::Eq,
            value: text("test"),
        }],
        select: vec![],
        quantifier: Quantifier::default(),
        version: None,
    };
    let events = vec![sample_event()];
    let result = evaluate(&events, &spec).unwrap();
    assert_eq!(result.verdict, Verdict::Error);
}

#[test]
fn test_contains_predicate_satisfied() {
    let spec = PropertySpec {
        name: "job-id-contains".to_string(),
        predicates: vec![Predicate {
            field: "job_id".to_string(),
            op: Op::Contains,
            value: text("test"),
        }],
        select: vec![],
        quantifier: Quantifier::default(),
        version: None,
    };
    let events = vec![sample_event()];
    let result = evaluate(&events, &spec).unwrap();
    assert_eq!(result.verdict, Verdict::Satisfied);
}

#[test]
fn test_regex_predicate_satisfied() {
    let spec = PropertySpec {
        name: "regex-check".to_string(),
        predicates: vec![Predicate {
            field: "job_id".to_string(),
            op: Op::Regex,
            value: text("test"),
        }],
        select: vec![],
        quantifier: Quantifier::default(),
        version: None,
    };
    let events = vec![sample_event()];
    let result = evaluate(&events, &spec).unwrap();
    assert_eq!(result.verdict, Verdict::Satisfied);
}

#[test]
fn test_gt_predicate_satisfied() {
    let spec = PropertySpec {
        name: "seq-gt".to_string(),
        predicates: vec![Predicate {
            field: "seq".to_string(),
            op: Op::Gt,
            value: Value::from_natural(0),
        }],
        select: vec![],
        quantifier: Quantifier::default(),
        version: None,
    };
    let events = vec![sample_event()];
    let result = evaluate(&events, &spec).unwrap();
    assert_eq!(result.verdict, Verdict::Satisfied);
}

#[test]
fn test_multiple_predicates_and_semantics() {
    let spec = PropertySpec {
        name: "multi-pred".to_string(),
        predicates: vec![
            Predicate {
                field: "event_type".to_string(),
                op: Op::Eq,
                value: text("job_started"),
            },
            Predicate {
                field: "job_id".to_string(),
                op: Op::Contains,
                value: text("test"),
            },
        ],
        select: vec![],
        quantifier: Quantifier::default(),
        version: None,
    };
    let events = vec![sample_event()];
    let result = evaluate(&events, &spec).unwrap();
    assert_eq!(result.verdict, Verdict::Satisfied);
}

#[test]
fn test_multiple_predicates_one_violated() {
    let spec = PropertySpec {
        name: "multi-pred-violated".to_string(),
        predicates: vec![
            Predicate {
                field: "event_type".to_string(),
                op: Op::Eq,
                value: text("job_started"),
            },
            Predicate {
                field: "event_type".to_string(),
                op: Op::Eq,
                value: text("job_completed"),
            },
        ],
        select: vec![],
        quantifier: Quantifier::default(),
        version: None,
    };
    let events = vec![sample_event()];
    let result = evaluate(&events, &spec).unwrap();
    assert_eq!(result.verdict, Verdict::Violated);
}

#[test]
fn test_evaluate_readonly_no_mutation() {
    let mut event = sample_event();
    event.seq = 42;
    let events = vec![event];

    let spec = PropertySpec {
        name: "readonly-check".to_string(),
        predicates: vec![Predicate {
            field: "seq".to_string(),
            op: Op::Gt,
            value: Value::from_natural(0),
        }],
        select: vec![],
        quantifier: Quantifier::default(),
        version: None,
    };

    let result1 = evaluate(&events, &spec).unwrap();
    let result2 = evaluate(&events, &spec).unwrap();
    let before_json = format!("{:?}", events);
    let _ = result1;
    let _ = result2;
    let after_json = format!("{:?}", events);

    assert_eq!(before_json, after_json, "Events slice must not be mutated");
    assert_eq!(
        result1, result2,
        "Two evaluations over same slice must produce identical verdicts"
    );
}

#[test]
fn test_hash_absent_event_evaluates_normally() {
    let mut event = sample_event();
    event.bundle_hash = None; // Explicitly no bundle hash
    let events = vec![event];

    let spec = PropertySpec {
        name: "no-bundle-hash".to_string(),
        predicates: vec![Predicate {
            field: "event_type".to_string(),
            op: Op::Eq,
            value: text("job_started"),
        }],
        select: vec![],
        quantifier: Quantifier::default(),
        version: None,
    };

    let result = evaluate(&events, &spec).unwrap();
    assert_eq!(result.verdict, Verdict::Satisfied);
}

#[test]
fn test_type_coercion_failure_returns_error_verdict() {
    let spec = PropertySpec {
        name: "type-mismatch".to_string(),
        predicates: vec![Predicate {
            field: "event_type".to_string(),
            op: Op::Gt,
            value: Value::from_natural(5),
        }],
        select: vec![],
        quantifier: Quantifier::default(),
        version: None,
    };
    let events = vec![sample_event()];
    let result = evaluate(&events, &spec).unwrap();
    assert_eq!(result.verdict, Verdict::Error);
}

#[test]
fn test_detail_always_populated() {
    let spec = PropertySpec {
        name: "detail-check".to_string(),
        predicates: vec![Predicate {
            field: "event_type".to_string(),
            op: Op::Eq,
            value: text("job_started"),
        }],
        select: vec![],
        quantifier: Quantifier::default(),
        version: None,
    };
    let events = vec![sample_event()];
    let result = evaluate(&events, &spec).unwrap();
    assert!(!result.detail.is_empty());
}

#[test]
fn bench_parse_under_5ms() {
    let spec_json = r#"{"name":"bench-spec","predicates":[{"field":"event_type","op":"Eq","value":"job_started"}]}"#;
    let start = std::time::Instant::now();
    let spec = parse_spec(decode(spec_json)).expect("parse must succeed");
    let elapsed_ms = start.elapsed().as_secs_f64() * 1000.0;
    assert!(elapsed_ms < 5.0, "parse took {elapsed_ms:.2}ms, must be <5ms");
    println!("bench_parse_under_5ms: {elapsed_ms:.3}ms");
    assert_eq!(spec.predicates.len(), 1);
    assert_eq!(spec.name, bench_spec().name);
}

#[test]
fn bench_eval_on_1k_events() {
    let events = make_events(1000);
    let result = evaluate(&events, &bench_spec()).unwrap();
    assert_eq!(result.verdict, Verdict::Satisfied);
    assert_eq!(result.matched_count, 1000);
    assert_eq!(events[999].seq, 999);
    assert_eq!(events[999].ts, 1_700_000_999);
    assert_eq!(events[999].job_id, "bench-job-999");
    assert_eq!(events[999].capability.as_deref(), Some("FileRead"));
    assert!(events[999].output.is_none() && events[999].cmd.is_none() && events[999].mono_ns.is_none());
}

fn with_quantifier(quantifier: Quantifier, select: Vec<Predicate>) -> PropertySpec {
    PropertySpec {
        name: "q".to_string(),
        predicates: vec![Predicate {
            field: "event_type".to_string(),
            op: Op::Eq,
            value: text("job_failed"),
        }],
        select,
        quantifier,
        version: None,
    }
}

fn mixed_events() -> Vec<WalEvent> {
    let mut events = Vec::new();
    for i in 0..4u64 {
        let mut e = sample_event();
        e.seq = i;
        if i % 2 == 1 {
            e.event_type = WalEventType::JobFailed;
        }
        events.push(e);
    }
    events
}

#[test]
fn quantifiers_over_selected_events() {
    let events = mixed_events();
    let r = evaluate(&events, &with_quantifier(Quantifier::Exists, vec![])).unwrap();
    assert_eq!(r.verdict, Verdict::Satisfied);
    assert_eq!(r.detail, "EXISTS: 2/4 satisfy");
    let r = evaluate(&events, &with_quantifier(Quantifier::NoneOf, vec![])).unwrap();
    assert_eq!(r.verdict, Verdict::Violated);
    assert_eq!(r.detail, "NONE violated: 2/4 satisfy");
    let exactly_two = Quantifier::Count { op: Op::Eq, threshold: 2 };
    let r = evaluate(&events, &with_quantifier(exactly_two, vec![])).unwrap();
    assert_eq!(r.verdict, Verdict::Satisfied);
    assert_eq!(r.detail, "COUNT: 2 Eq 2");
    let late = vec![Predicate {
        field: "seq".to_string(),
        op: Op::Gte,
        value: Value::from_natural(3),
    }];
    let r = evaluate_v2(&events, &with_quantifier(Quantifier::All, late)).unwrap();
    assert_eq!(r.verdict, Verdict::Satisfied);
    assert_eq!(r.selected_count, 1);
    assert_eq!(r.matched_count, 1);
}

#[test]
fn values_are_compared_as_doubles() {
    let a = Value::from_natural(9_007_199_254_740_993);
    let b = Value::from_natural(9_007_199_254_740_992);
    assert_eq!(compare_values(&a, Op::Gt, &b), Ok(false));
    assert_eq!(compare_values(&a, Op::Lte, &b), Ok(true));
    assert_eq!(compare_values(&a, Op::Eq, &b), Ok(false));
    assert_eq!(compare_values(&double(-1.5), Op::Lt, &double(0.25)), Ok(true));
    assert_eq!(compare_values(&Value::from_natural(1), Op::Gt, &double(0.5)), Ok(true));
    assert_eq!(
        compare_values(&text("x"), Op::Gt, &Value::from_natural(1)),
        Err("Cannot coerce field value String(\"x\") to number for numeric comparison".to_string())
    );
    assert_eq!(
        compare_values(&Value::Bool(true), Op::Contains, &text("x")),
        Err("Cannot coerce field value Bool(true) to string for Contains comparison".to_string())
    );
}

#[test]
fn refused_specs_say_why() {
    let bad = r#"{"name":"t","predicates":[{"field":"seq","op":"Gt","value":{"a":["b\n"]}}]}"#;
    match parse_spec(decode(bad)) {
        Err(ParseSpecError::OpTypeMismatch { field, message }) => {
            assert_eq!(field, "seq");
            assert_eq!(
                message,
                "Operator Gt requires a numeric value, got {\"a\":[\"b\\n\"]}"
            );
        }
        _ => panic!("an operator must go with its value"),
    }
    match parse_spec(decode("{")) {
        Err(e) => assert!(e.message().starts_with("Parse error: JSON parse error: ")),
        Ok(_) => panic!("a torn text is no property"),
    }
    match validate_field_path("unknown") {
        Err(e) => assert_eq!(
            e.message(),
            "Invalid field path 'unknown': Field path 'unknown' is not a recognized path. Supported: event_type, job_id, seq, output.<key>, watermark"
        ),
        Ok(_) => panic!("an unknown path must be refused"),
    }
}

#[test]
fn items_of_any_kind_are_evaluated() {
    let spec = PropertySpec {
        name: "sizes".to_string(),
        predicates: vec![Predicate {
            field: "size".to_string(),
            op: Op::Lt,
            value: Value::from_natural(10),
        }],
        select: vec![],
        quantifier: Quantifier::All,
        version: None,
    };
    let resolve = |x: &u64, field: &str| {
        if field == "size" {
            Some(Value::from_natural(*x))
        } else {
            None
        }
    };
    let r = evaluate_items(&[1u64, 2, 3], &spec, &resolve);
    assert_eq!(r.verdict, Verdict::Satisfied);
    assert_eq!(r.matched_count, 3);
    let r = evaluate_items(&[1u64, 20, 3], &spec, &resolve);
    assert_eq!(r.verdict, Verdict::Violated);
}

#[test]
fn left_out_events_decide_nothing() {
    let late = || {
        vec![Predicate {
            field: "output.attempt".to_string(),
            op: Op::Gte,
            value: Value::from_natural(3),
        }]
    };
    let attempt = |n: Value, kind: WalEventType| {
        let mut e = sample_event();
        e.event_type = kind;
        e.output = Some(Value::Object(Object::new().with("attempt".to_string(), n)));
        e
    };
    let mut events = vec![attempt(Value::from_natural(3), WalEventType::JobFailed)];
    let before = evaluate(&events, &with_quantifier(Quantifier::All, late())).unwrap();
    assert_eq!(before.verdict, Verdict::Satisfied);
    // Too early, of the wrong kind, and without the field.
    events.push(attempt(Value::from_natural(2), WalEventType::JobStarted));
    events.push(attempt(text("three"), WalEventType::JobStarted));
    events.push(sample_event());
    let after = evaluate(&events, &with_quantifier(Quantifier::All, late())).unwrap();
    assert_eq!(after, before);
}

#[test]
fn nothing_selected() {
    let none = || {
        vec![Predicate {
            field: "job_id".to_string(),
            op: Op::Eq,
            value: text("nobody"),
        }]
    };
    let events = mixed_events();
    let verdict = |q: Quantifier| evaluate(&events, &with_quantifier(q, none())).unwrap().verdict;
    assert_eq!(verdict(Quantifier::All), Verdict::Satisfied);
    assert_eq!(verdict(Quantifier::NoneOf), Verdict::Satisfied);
    assert_eq!(verdict(Quantifier::Exists), Verdict::Violated);
    assert_eq!(verdict(Quantifier::Count { op: Op::Gte, threshold: 1 }), Verdict::Violated);
    assert_eq!(verdict(Quantifier::Count { op: Op::Gte, threshold: 0 }), Verdict::Satisfied);
}

#[test]
fn stuck_items_are_errors() {
    let spec = |select: Vec<Predicate>| PropertySpec {
        name: "sizes".to_string(),
        predicates: vec![Predicate {
            field: "size".to_string(),
            op: Op::Lt,
            value: Value::from_natural(10),
        }],
        select,
        quantifier: Quantifier::All,
        version: None,
    };
    let resolve = |x: &u64, field: &str| match (field, *x) {
        ("size", 0) => None,
        ("size", n) => Some(Value::from_natural(n)),
        ("known", 0) => None,
        ("known", _) => Some(Value::Bool(true)),
        _ => None,
    };
    let r = evaluate_items(&[1u64, 0, 3], &spec(vec![]), &resolve);
    assert_eq!(r.verdict, Verdict::Error);
    assert_eq!((r.selected_count, r.evaluated_count, r.matched_count), (3, 3, 1));
    let known = vec![Predicate {
        field: "known".to_string(),
        op: Op::Eq,
        value: Value::Bool(true),
    }];
    let r = evaluate_items(&[1u64, 0, 3], &spec(known), &resolve);
    assert_eq!(r.verdict, Verdict::Satisfied);
    assert_eq!((r.selected_count, r.evaluated_count, r.matched_count), (2, 2, 2));
}
