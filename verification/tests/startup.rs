use hya_server::startup::{catalog_event_id, startup_mark_line, startup_trace_enabled};

#[test]
fn startup_trace_is_enabled_by_one_or_true() {
    assert!(startup_trace_enabled(Some("1")));
    assert!(startup_trace_enabled(Some("true")));
    assert!(startup_trace_enabled(Some("TRUE")));
    assert!(startup_trace_enabled(Some("tRuE")));
    assert!(!startup_trace_enabled(Some("yes")));
    assert!(!startup_trace_enabled(Some("0")));
    assert!(!startup_trace_enabled(Some("")));
    assert!(!startup_trace_enabled(None));
}

#[test]
fn startup_marks_render_as_json_lines() {
    assert_eq!(
        startup_mark_line("backend_listen", 1725029869000, Some("http://127.0.0.1:4096")),
        r#"{"hya_startup":true,"mark":"backend_listen","wall_ms":1725029869000,"detail":"http://127.0.0.1:4096"}"#
    );
    assert_eq!(
        startup_mark_line("boot", 0, None),
        r#"{"hya_startup":true,"mark":"boot","wall_ms":0}"#
    );
}

#[test]
fn details_escape_backslashes_and_quotes() {
    assert_eq!(
        startup_mark_line("m", 1, Some(r#"a\b"c"#)),
        r#"{"hya_startup":true,"mark":"m","wall_ms":1,"detail":"a\\b\"c"}"#
    );
}

#[test]
fn marks_and_details_stay_on_one_json_line() {
    let line = startup_mark_line("a\"b", 7, Some("x\ny\tz\u{1}"));
    assert_eq!(
        line,
        r#"{"hya_startup":true,"mark":"a\"b","wall_ms":7,"detail":"x\ny\tz\u0001"}"#
    );
    assert!(!line.contains('\n'));
    let parsed: serde_json::Value = serde_json::from_str(&line).unwrap();
    assert_eq!(parsed["mark"], "a\"b");
    assert_eq!(parsed["detail"], "x\ny\tz\u{1}");
    assert_eq!(parsed["wall_ms"], 7);
}

#[test]
fn catalog_ids_carry_the_millis() {
    assert_eq!(catalog_event_id(42), "catalog-42");
    assert_eq!(catalog_event_id(0), "catalog-0");
}
