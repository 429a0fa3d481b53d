use hya_server::interactions::{
    field_str, interaction_frame, interaction_frame_at, millis_to_i64, now_millis,
    InteractionPayload, InteractionType, NoticeProperties, PendingNotice, QuestionFields,
};

fn s(text: &str) -> Option<String> {
    Some(text.to_string())
}

fn no_question() -> QuestionFields {
    QuestionFields { question: None, header: None, option_labels: None }
}

fn props(session: &str) -> NoticeProperties {
    NoticeProperties {
        session_id: s(session),
        id: s("req-1"),
        permission: s("bash"),
        patterns: Some(vec![s("ls *"), None, s("cat x")]),
        request_id: s("req-0"),
        first_question: no_question(),
    }
}

fn notice(kind: &str, p: NoticeProperties) -> PendingNotice {
    PendingNotice { kind: s(kind), properties: Some(p) }
}

#[test]
fn permission_asked_becomes_a_permission_request() {
    let f = interaction_frame_at(&notice("permission.asked", props("s1")), Some("s1"), 42).unwrap();
    assert_eq!(f.seq, 0);
    assert_eq!(f.session, "s1");
    assert_eq!(f.time_recorded_ms, 42);
    match f.payload {
        InteractionPayload::PermissionRequested { request, interaction } => {
            assert_eq!(request, "req-1");
            assert_eq!(interaction.id, "req-1");
            assert_eq!(interaction.session, "s1");
            assert_eq!(interaction.kind, InteractionType::Permission);
            assert_eq!(interaction.title, "bash ls * cat x");
            assert_eq!(interaction.detail, "");
            assert!(interaction.options.is_empty());
        }
        other => panic!("unexpected payload {other:?}"),
    }
}

#[test]
fn permission_title_is_trimmed_without_patterns() {
    let mut p = props("s1");
    p.patterns = None;
    let f = interaction_frame_at(&notice("permission.asked", p), None, 0).unwrap();
    match f.payload {
        InteractionPayload::PermissionRequested { interaction, .. } => {
            assert_eq!(interaction.title, "bash")
        }
        other => panic!("unexpected payload {other:?}"),
    }
}

#[test]
fn question_asked_reads_the_first_question() {
    let mut p = props("s1");
    p.first_question = QuestionFields {
        question: s("Proceed?"),
        header: s("Confirm"),
        option_labels: Some(vec![s("Yes"), None, s("No")]),
    };
    let f = interaction_frame_at(&notice("question.asked", p), None, 7).unwrap();
    match f.payload {
        InteractionPayload::QuestionRequested { request, interaction } => {
            assert_eq!(request, "req-1");
            assert_eq!(interaction.kind, InteractionType::Question);
            assert_eq!(interaction.title, "Proceed?");
            assert_eq!(interaction.detail, "Confirm");
            assert_eq!(interaction.options, vec!["Yes".to_string(), "No".to_string()]);
        }
        other => panic!("unexpected payload {other:?}"),
    }
    let q = interaction_frame_at(&notice("question.asked", props("s1")), None, 7).unwrap();
    match q.payload {
        InteractionPayload::QuestionRequested { interaction, .. } => {
            assert_eq!(interaction.title, "");
            assert!(interaction.options.is_empty());
        }
        other => panic!("unexpected payload {other:?}"),
    }
}

#[test]
fn replies_resolve_the_request() {
    for kind in ["permission.replied", "question.replied", "question.rejected"] {
        let f = interaction_frame_at(&notice(kind, props("s1")), Some("s1"), 1).unwrap();
        match f.payload {
            InteractionPayload::InteractionResolved { request } => assert_eq!(request, "req-0"),
            other => panic!("unexpected payload {other:?}"),
        }
    }
}

#[test]
fn other_sessions_unknown_types_and_missing_properties_give_no_frame() {
    assert!(interaction_frame_at(&notice("permission.asked", props("s2")), Some("s1"), 1).is_none());
    assert!(interaction_frame_at(&notice("catalog.updated", props("s1")), None, 1).is_none());
    let bare = PendingNotice { kind: s("permission.asked"), properties: None };
    assert!(interaction_frame_at(&bare, None, 1).is_none());
    let untyped = PendingNotice { kind: None, properties: Some(props("s1")) };
    assert!(interaction_frame_at(&untyped, None, 1).is_none());
    // a notice without a session passes any session filter
    let f = interaction_frame_at(&notice("permission.asked", props("")), Some("s1"), 1).unwrap();
    assert_eq!(f.session, "");
}

#[test]
fn frames_are_recorded_now() {
    let before = now_millis();
    let f = interaction_frame(&notice("question.rejected", props("s1")), None).unwrap();
    assert!(f.time_recorded_ms >= before);
    assert!(before > 1_600_000_000_000);
}

#[test]
fn clock_readings_convert_to_i64() {
    assert_eq!(millis_to_i64(Some(1_725_029_869_000)), 1_725_029_869_000);
    assert_eq!(millis_to_i64(None), 0);
    assert_eq!(millis_to_i64(Some(u64::MAX as u128 + 5)), 4);
    assert_eq!(field_str(&s("x")), "x");
    assert_eq!(field_str(&None), "");
}
