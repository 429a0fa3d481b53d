use hya_server::error::{
    from_legacy, grpc_code_for, status_from_error_body, Code, GrpcCode, V1Error,
};

const ALL: [Code; 8] = [
    Code::InvalidArgument,
    Code::NotFound,
    Code::SessionNotFound,
    Code::PermissionDenied,
    Code::SessionBusy,
    Code::Conflict,
    Code::Unavailable,
    Code::Internal,
];

#[test]
fn codes_follow_the_stable_table() {
    let table = [
        ("invalid_argument", 400, GrpcCode::InvalidArgument),
        ("not_found", 404, GrpcCode::NotFound),
        ("session_not_found", 404, GrpcCode::NotFound),
        ("permission_denied", 403, GrpcCode::PermissionDenied),
        ("session_busy", 409, GrpcCode::FailedPrecondition),
        ("conflict", 409, GrpcCode::FailedPrecondition),
        ("unavailable", 503, GrpcCode::Unavailable),
        ("internal", 500, GrpcCode::Internal),
    ];
    for (code, (name, status, grpc)) in ALL.iter().zip(table.iter()) {
        assert_eq!(code.as_str(), *name);
        assert_eq!(code.http_status(), *status);
        assert_eq!(grpc_code_for(code.as_str()), *grpc);
    }
}

#[test]
fn unknown_codes_map_to_internal() {
    assert_eq!(grpc_code_for(""), GrpcCode::Internal);
    assert_eq!(grpc_code_for("teapot"), GrpcCode::Internal);
    assert_eq!(grpc_code_for("Invalid_Argument"), GrpcCode::Internal);
}

#[test]
fn constructors_carry_code_and_message() {
    let e = V1Error::session_not_found("hysec_1");
    assert_eq!(e.code, Code::SessionNotFound);
    assert_eq!(e.message, "session not found: hysec_1");
    assert_eq!(e.http_status(), 404);
    let e = V1Error::session_busy();
    assert_eq!((e.code, e.message.as_str()), (Code::SessionBusy, "session busy"));
    assert_eq!(V1Error::unavailable("no summarizer").http_status(), 503);
    assert_eq!(V1Error::internal("boom").code, Code::Internal);
    assert_eq!(V1Error::new(Code::Conflict, "stale").http_status(), 409);
}

#[test]
fn legacy_codes_map_onto_stable_codes() {
    let cases = [
        (Some("invalid_argument"), Code::InvalidArgument),
        (Some("bad_request"), Code::InvalidArgument),
        (Some("session_not_found"), Code::SessionNotFound),
        (Some("not_found"), Code::SessionNotFound),
        (Some("session_busy"), Code::SessionBusy),
        (Some("conflict"), Code::SessionBusy),
        (Some("forbidden"), Code::PermissionDenied),
        (Some("permission_denied"), Code::PermissionDenied),
        (Some("unavailable"), Code::Unavailable),
        (Some("service_unavailable"), Code::Unavailable),
        (Some("other"), Code::Internal),
        (None, Code::Internal),
    ];
    for (code, expected) in cases {
        let e = from_legacy(code, "text");
        assert_eq!(e.code, expected);
        assert_eq!(e.message, "text");
    }
}

#[test]
fn error_bodies_become_grpc_statuses() {
    let s = status_from_error_body(
        Some("session_busy".to_string()),
        Some("session busy".to_string()),
        b"{}",
    );
    assert_eq!(s.code, GrpcCode::FailedPrecondition);
    assert_eq!(s.message, "session busy");
    let s = status_from_error_body(None, None, b"upstream exploded");
    assert_eq!(s.code, GrpcCode::Internal);
    assert_eq!(s.message, "upstream exploded");
    let s = status_from_error_body(Some("not_found".to_string()), None, b"ab\xffc");
    assert_eq!(s.code, GrpcCode::NotFound);
    assert_eq!(s.message, "ab\u{fffd}c");
}

#[test]
fn error_bodies_render_as_the_stable_json() {
    let e = V1Error::session_not_found("hysec_1");
    assert_eq!(
        e.json_body(),
        r#"{"error":{"code":"session_not_found","message":"session not found: hysec_1"}}"#
    );
    let tricky = V1Error::internal("a \"quoted\"\nline\\");
    let parsed: serde_json::Value = serde_json::from_str(&tricky.json_body()).unwrap();
    assert_eq!(parsed["error"]["code"], "internal");
    assert_eq!(parsed["error"]["message"], "a \"quoted\"\nline\\");
}

#[test]
fn a_rendered_error_reads_back_as_its_code_and_message() {
    for code in ALL {
        let e = V1Error::new(code, "msg \"x\"\n\u{1}");
        let status = hya_server::error::status_from_body(e.json_body().as_bytes());
        assert_eq!(status.message, e.message);
        let expected = match code {
            Code::InvalidArgument => GrpcCode::InvalidArgument,
            Code::NotFound | Code::SessionNotFound => GrpcCode::NotFound,
            Code::PermissionDenied => GrpcCode::PermissionDenied,
            Code::SessionBusy | Code::Conflict => GrpcCode::FailedPrecondition,
            Code::Unavailable => GrpcCode::Unavailable,
            Code::Internal => GrpcCode::Internal,
        };
        assert_eq!(status.code, expected);
    }
}

#[test]
fn status_from_body_reads_the_json_error_or_falls_back_to_the_text() {
    let s = hya_server::error::status_from_body(
        br#"{"error":{"code":"permission_denied","message":"no"}}"#,
    );
    assert_eq!(s.code, GrpcCode::PermissionDenied);
    assert_eq!(s.message, "no");
    let s = hya_server::error::status_from_body(br#"{"error":{"code":"conflict"}}"#);
    assert_eq!(s.code, GrpcCode::FailedPrecondition);
    assert_eq!(s.message, r#"{"error":{"code":"conflict"}}"#);
    let s = hya_server::error::status_from_body(b"plain failure");
    assert_eq!(s.code, GrpcCode::Internal);
    assert_eq!(s.message, "plain failure");
    let s = hya_server::error::status_from_body(br#"{"error":{"code":7,"message":"m"}}"#);
    assert_eq!(s.code, GrpcCode::Internal);
    assert_eq!(s.message, "m");
}
