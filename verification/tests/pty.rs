use hya_server::error::GrpcCode;
use hya_server::pty::{
    attach_target, client_step, pty_not_found, pty_step, sends_replay, session_stream_admission,
    ClientStep, PtyClientFrame, PtyEvent, PtyServerFrame,
};

#[test]
fn the_first_frame_must_attach() {
    assert_eq!(attach_target(Some(PtyClientFrame::Attach("pty1".to_string()))).unwrap(), "pty1");
    let err = attach_target(Some(PtyClientFrame::Ping)).unwrap_err();
    assert_eq!(err.code, GrpcCode::InvalidArgument);
    assert_eq!(err.message, "first frame must attach");
    let err = attach_target(None).unwrap_err();
    assert_eq!(err.code, GrpcCode::Cancelled);
    assert_eq!(err.message, "stream closed before attach");
    let err = pty_not_found("pty9");
    assert_eq!(err.code, GrpcCode::NotFound);
    assert_eq!(err.message, "pty session not found: pty9");
}

#[test]
fn the_pump_writes_input_and_forwards_output() {
    match client_step(Some(PtyClientFrame::Input(b"ls\n".to_vec()))) {
        ClientStep::Write(text) => assert_eq!(text, "ls\n"),
        other => panic!("unexpected step {other:?}"),
    }
    assert!(matches!(client_step(Some(PtyClientFrame::Resize)), ClientStep::Ignore));
    assert!(matches!(client_step(Some(PtyClientFrame::Attach("p".to_string()))), ClientStep::Ignore));
    assert!(matches!(client_step(Some(PtyClientFrame::Empty)), ClientStep::Ignore));
    assert!(matches!(client_step(None), ClientStep::Stop));
    let step = pty_step(PtyEvent::Data("out".to_string()));
    assert!(!step.stop);
    assert!(matches!(step.send, Some(PtyServerFrame::Output(ref b)) if b == b"out"));
    let step = pty_step(PtyEvent::End);
    assert!(step.stop);
    assert!(matches!(step.send, Some(PtyServerFrame::Exit(0))));
    assert!(pty_step(PtyEvent::Closed).stop);
    let lag = pty_step(PtyEvent::Lagged);
    assert!(!lag.stop && lag.send.is_none());
    assert!(sends_replay("x"));
    assert!(!sends_replay(""));
}

#[test]
fn session_streams_are_admitted_for_known_sessions() {
    assert!(session_stream_admission(Some("s1"), &Ok(true)).is_ok());
    let err = session_stream_admission(Some("s1"), &Ok(false)).unwrap_err();
    assert_eq!(err.code, GrpcCode::NotFound);
    assert_eq!(err.message, "session not found: s1");
    let err = session_stream_admission(None, &Ok(true)).unwrap_err();
    assert_eq!(err.code, GrpcCode::InvalidArgument);
    assert_eq!(err.message, "invalid session id");
    let err = session_stream_admission(Some("s1"), &Err("db down".to_string())).unwrap_err();
    assert_eq!(err.code, GrpcCode::Internal);
    assert_eq!(err.message, "db down");
}

#[test]
fn a_ping_is_answered_with_a_pong() {
    assert!(matches!(
        client_step(Some(PtyClientFrame::Ping)),
        ClientStep::Reply(PtyServerFrame::Pong)
    ));
}

#[test]
fn invalid_input_bytes_are_replaced() {
    match client_step(Some(PtyClientFrame::Input(vec![b'a', 0xff, b'b']))) {
        ClientStep::Write(text) => assert_eq!(text, "a\u{fffd}b"),
        other => panic!("unexpected step {other:?}"),
    }
}
