//! Decisions of the gRPC terminal stream (`StreamPty`) and of the admission
//! of gRPC event streams.
//!
//! The first client frame must attach to a PTY session; afterwards client
//! input is written to the PTY, pings are answered with pongs, and PTY output
//! is forwarded to the client until either side ends.
use vstd::prelude::*;
use vstd::utf8::{decode_utf8, valid_utf8};
use crate::error::{lossy_utf8, utf8_lossy, GrpcCode, GrpcStatus};
use crate::text::concat;

verus! {

/// A frame sent by a terminal client.
#[derive(Debug)]
pub enum PtyClientFrame {
    /// Attach to the PTY session with this id.
    Attach(String),
    /// Keyboard input.
    Input(Vec<u8>),
    Resize,
    Ping,
    /// A frame without payload.
    Empty,
}

/// The PTY session a terminal stream attaches to, from its first client
/// message (`None` when the stream closed or failed before one arrived).
pub fn attach_target(first: Option<PtyClientFrame>) -> (res: Result<String, GrpcStatus>)
    ensures
        match first {
            None => res matches Err(s) && s.code == GrpcCode::Cancelled && s.message@
                == "stream closed before attach"@,
            Some(PtyClientFrame::Attach(id)) => res matches Ok(a) && a@ == id@,
            Some(_) => res matches Err(s) && s.code == GrpcCode::InvalidArgument && s.message@
                == "first frame must attach"@,
        },
{
    match first {
        Some(PtyClientFrame::Attach(id)) => Ok(id),
        Some(_) => Err(GrpcStatus::new(GrpcCode::InvalidArgument, "first frame must attach")),
        None => Err(GrpcStatus::new(GrpcCode::Cancelled, "stream closed before attach")),
    }
}

/// The status for an attach to an unknown PTY session.
pub fn pty_not_found(id: &str) -> (res: GrpcStatus)
    ensures
        res.code == GrpcCode::NotFound,
        res.message@ == "pty session not found: "@ + id@,
{
    GrpcStatus { code: GrpcCode::NotFound, message: concat("pty session not found: ", id) }
}

/// What the terminal pump does with a client message.
#[derive(Debug)]
pub enum ClientStep {
    /// Write this text to the PTY.
    Write(String),
    /// Send this frame back to the client.
    Reply(PtyServerFrame),
    /// Nothing to do; keep pumping.
    Ignore,
    /// The client stream ended or failed; stop pumping.
    Stop,
}

/// The pump's step for the next client message (`None` when the client
/// stream ended or failed): input is written to the PTY, decoded lossily
/// (valid UTF-8 unchanged), a ping is answered with a pong, and attach and
/// resize frames are ignored.
pub fn client_step(frame: Option<PtyClientFrame>) -> (res: ClientStep)
    ensures
        match frame {
            None => res is Stop,
            Some(PtyClientFrame::Input(bytes)) => res matches ClientStep::Write(t) && t@
                == lossy_utf8(bytes@) && (valid_utf8(bytes@) ==> t@ == decode_utf8(bytes@)),
            Some(PtyClientFrame::Ping) => res matches ClientStep::Reply(PtyServerFrame::Pong),
            Some(_) => res is Ignore,
        },
{
    match frame {
        None => ClientStep::Stop,
        Some(PtyClientFrame::Input(bytes)) => ClientStep::Write(utf8_lossy(bytes.as_slice())),
        Some(PtyClientFrame::Ping) => ClientStep::Reply(PtyServerFrame::Pong),
        Some(_) => ClientStep::Ignore,
    }
}

/// An event of an attached PTY session.
#[derive(Debug)]
pub enum PtyEvent {
    /// Output text.
    Data(String),
    /// The PTY ended.
    End,
    /// The event channel closed.
    Closed,
    /// The subscriber lagged and missed events.
    Lagged,
}

/// A frame sent to a terminal client.
#[derive(Debug)]
pub enum PtyServerFrame {
    Output(Vec<u8>),
    Exit(i32),
    /// The answer to a client ping.
    Pong,
}

/// What the terminal pump does with a PTY event: the frame to send, if any,
/// and whether to stop afterwards.
#[derive(Debug)]
pub struct PtyStep {
    pub send: Option<PtyServerFrame>,
    pub stop: bool,
}

/// The pump's step for a PTY event: output is forwarded as its UTF-8 bytes,
/// the end of the PTY is reported as exit status 0 and stops the pump, a
/// closed channel stops it, and a lag is skipped.
pub fn pty_step(event: PtyEvent) -> (res: PtyStep)
    ensures
        match event {
            PtyEvent::Data(text) => !res.stop && (res.send matches Some(PtyServerFrame::Output(b))
                && b@ == vstd::utf8::encode_utf8(text@)),
            PtyEvent::End => res.stop && (res.send matches Some(PtyServerFrame::Exit(code))
                && code == 0),
            PtyEvent::Closed => res.stop && res.send is None,
            PtyEvent::Lagged => !res.stop && res.send is None,
        },
{
    match event {
        PtyEvent::Data(text) => {
            let bytes = text.as_str().as_bytes_vec();
            PtyStep { send: Some(PtyServerFrame::Output(bytes)), stop: false }
        },
        PtyEvent::End => PtyStep { send: Some(PtyServerFrame::Exit(0)), stop: true },
        PtyEvent::Closed => PtyStep { send: None, stop: true },
        PtyEvent::Lagged => PtyStep { send: None, stop: false },
    }
}

/// Whether an attachment's replayed output is sent before pumping: only when
/// there is some.
pub fn sends_replay(replay: &str) -> (res: bool)
    ensures
        res == (replay@.len() > 0),
{
    !replay.is_empty()
}

/// The admission of a gRPC session event stream: `session` is the canonical
/// text of the parsed session id (`None` when the id does not parse), and
/// `exists` the engine's answer to whether it exists.
pub fn session_stream_admission(session: Option<&str>, exists: &Result<bool, String>) -> (res:
    Result<(), GrpcStatus>)
    ensures
        match session {
            None => res matches Err(s) && s.code == GrpcCode::InvalidArgument && s.message@
                == "invalid session id"@,
            Some(id) => match exists {
                Ok(true) => res is Ok,
                Ok(false) => res matches Err(s) && s.code == GrpcCode::NotFound && s.message@
                    == "session not found: "@ + id@,
                Err(e) => res matches Err(s) && s.code == GrpcCode::Internal && s.message@ == e@,
            },
        },
{
    match session {
        None => Err(GrpcStatus::new(GrpcCode::InvalidArgument, "invalid session id")),
        Some(id) => match exists {
            Ok(true) => Ok(()),
            Ok(false) => Err(
                GrpcStatus { code: GrpcCode::NotFound, message: concat("session not found: ", id) },
            ),
            Err(e) => Err(GrpcStatus::new(GrpcCode::Internal, e.as_str())),
        },
    }
}

} // verus!
