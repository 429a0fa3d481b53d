//! The stable v1 error model: codes, their HTTP statuses and gRPC codes, the
//! error value every failed call renders, and the gRPC status recovered from
//! an HTTP error body.
use vstd::prelude::*;
use vstd::utf8::*;
use crate::text::{
    concat, json_escaped, opt_string_view, owned, push_json_escaped, str_equals,
};

verus! {

/// Stable, machine-readable error code of a failed v1 call.
#[derive(Clone, Copy, Debug, PartialEq, Eq, Structural)]
pub enum Code {
    InvalidArgument,
    NotFound,
    SessionNotFound,
    PermissionDenied,
    SessionBusy,
    Conflict,
    Unavailable,
    Internal,
}

/// The gRPC status codes the v1 binding answers with.
#[derive(Clone, Copy, Debug, PartialEq, Eq, Structural)]
pub enum GrpcCode {
    Cancelled,
    InvalidArgument,
    NotFound,
    PermissionDenied,
    FailedPrecondition,
    Unavailable,
    Internal,
}

impl Code {
    /// The code's wire name, e.g. `session_not_found`.
    pub open spec fn wire_name(self) -> Seq<char> {
        match self {
            Code::InvalidArgument => "invalid_argument"@,
            Code::NotFound => "not_found"@,
            Code::SessionNotFound => "session_not_found"@,
            Code::PermissionDenied => "permission_denied"@,
            Code::SessionBusy => "session_busy"@,
            Code::Conflict => "conflict"@,
            Code::Unavailable => "unavailable"@,
            Code::Internal => "internal"@,
        }
    }

    /// The canonical HTTP status of the code, from the stable error table.
    pub open spec fn status(self) -> u16 {
        match self {
            Code::InvalidArgument => 400,
            Code::NotFound => 404,
            Code::SessionNotFound => 404,
            Code::PermissionDenied => 403,
            Code::SessionBusy => 409,
            Code::Conflict => 409,
            Code::Unavailable => 503,
            Code::Internal => 500,
        }
    }

    /// The gRPC code of the code, from the stable error table.
    pub open spec fn grpc(self) -> GrpcCode {
        match self {
            Code::InvalidArgument => GrpcCode::InvalidArgument,
            Code::NotFound => GrpcCode::NotFound,
            Code::SessionNotFound => GrpcCode::NotFound,
            Code::PermissionDenied => GrpcCode::PermissionDenied,
            Code::SessionBusy => GrpcCode::FailedPrecondition,
            Code::Conflict => GrpcCode::FailedPrecondition,
            Code::Unavailable => GrpcCode::Unavailable,
            Code::Internal => GrpcCode::Internal,
        }
    }

    /// The wire name of the code.
    pub fn as_str(&self) -> (res: &'static str)
        ensures
            res@ == self.wire_name(),
    {
        match self {
            Code::InvalidArgument => "invalid_argument",
            Code::NotFound => "not_found",
            Code::SessionNotFound => "session_not_found",
            Code::PermissionDenied => "permission_denied",
            Code::SessionBusy => "session_busy",
            Code::Conflict => "conflict",
            Code::Unavailable => "unavailable",
            Code::Internal => "internal",
        }
    }

    /// The HTTP status that an error with this code is rendered with.
    pub fn http_status(&self) -> (res: u16)
        ensures
            res == self.status(),
    {
        match self {
            Code::InvalidArgument => 400,
            Code::NotFound => 404,
            Code::SessionNotFound => 404,
            Code::PermissionDenied => 403,
            Code::SessionBusy => 409,
            Code::Conflict => 409,
            Code::Unavailable => 503,
            Code::Internal => 500,
        }
    }
}

/// One failed v1 call: a stable code and a human-readable message.
#[derive(Debug)]
pub struct V1Error {
    pub code: Code,
    pub message: String,
}

impl V1Error {
    /// Build an error from a stable code and message.
    pub fn new(code: Code, message: &str) -> (res: Self)
        ensures
            res.code == code,
            res.message@ == message@,
    {
        V1Error { code, message: owned(message) }
    }

    /// The request body or parameters are invalid.
    pub fn invalid_argument(message: &str) -> (res: Self)
        ensures
            res.code == Code::InvalidArgument,
            res.message@ == message@,
    {
        Self::new(Code::InvalidArgument, message)
    }

    /// The session id does not exist.
    pub fn session_not_found(session: &str) -> (res: Self)
        ensures
            res.code == Code::SessionNotFound,
            res.message@ == "session not found: "@ + session@,
    {
        V1Error { code: Code::SessionNotFound, message: concat("session not found: ", session) }
    }

    /// Another run owns the session's admission slot.
    pub fn session_busy() -> (res: Self)
        ensures
            res.code == Code::SessionBusy,
            res.message@ == "session busy"@,
    {
        Self::new(Code::SessionBusy, "session busy")
    }

    /// A required runtime capability is unavailable.
    pub fn unavailable(message: &str) -> (res: Self)
        ensures
            res.code == Code::Unavailable,
            res.message@ == message@,
    {
        Self::new(Code::Unavailable, message)
    }

    /// Unhandled internal failure.
    pub fn internal(message: &str) -> (res: Self)
        ensures
            res.code == Code::Internal,
            res.message@ == message@,
    {
        Self::new(Code::Internal, message)
    }

    /// The HTTP status the error is rendered with.
    pub fn http_status(&self) -> (res: u16)
        ensures
            res == self.code.status(),
    {
        self.code.http_status()
    }

    /// The JSON body the error is rendered with:
    /// `{"error":{"code":"<wire name>","message":"<message>"}}`.
    pub fn json_body(&self) -> (res: String)
        ensures
            res@ == error_body_text(self.code.wire_name(), self.message@),
    {
        let mut body = owned("{\"error\":{\"code\":\"");
        push_json_escaped(&mut body, self.code.as_str());
        body.append("\",\"message\":\"");
        push_json_escaped(&mut body, self.message.as_str());
        body.append("\"}}");
        body
    }
}

/// The JSON text of an error body with this code and message, both escaped
/// as JSON strings.
pub open spec fn error_body_text(code: Seq<char>, message: Seq<char>) -> Seq<char> {
    "{\"error\":{\"code\":\""@ + json_escaped(code) + "\",\"message\":\""@ + json_escaped(message)
        + "\"}}"@
}

/// The stable code that a legacy API error code maps to.
pub open spec fn legacy_code(code: Option<Seq<char>>) -> Code {
    match code {
        Some(c) => if c == "invalid_argument"@ || c == "bad_request"@ {
            Code::InvalidArgument
        } else if c == "session_not_found"@ || c == "not_found"@ {
            Code::SessionNotFound
        } else if c == "session_busy"@ || c == "conflict"@ {
            Code::SessionBusy
        } else if c == "forbidden"@ || c == "permission_denied"@ {
            Code::PermissionDenied
        } else if c == "unavailable"@ || c == "service_unavailable"@ {
            Code::Unavailable
        } else {
            Code::Internal
        },
        None => Code::Internal,
    }
}

/// Convert a legacy API error (its optional code and its text) into a v1 error.
pub fn from_legacy(code: Option<&str>, text: &str) -> (res: V1Error)
    ensures
        res.code == legacy_code(
            match code {
                Some(c) => Some(c@),
                None => None,
            },
        ),
        res.message@ == text@,
{
    let mapped = match code {
        Some(c) => if str_equals(c, "invalid_argument") || str_equals(c, "bad_request") {
            Code::InvalidArgument
        } else if str_equals(c, "session_not_found") || str_equals(c, "not_found") {
            Code::SessionNotFound
        } else if str_equals(c, "session_busy") || str_equals(c, "conflict") {
            Code::SessionBusy
        } else if str_equals(c, "forbidden") || str_equals(c, "permission_denied") {
            Code::PermissionDenied
        } else if str_equals(c, "unavailable") || str_equals(c, "service_unavailable") {
            Code::Unavailable
        } else {
            Code::Internal
        },
        None => Code::Internal,
    };
    V1Error::new(mapped, text)
}

/// The gRPC code that an HTTP error body's code string is answered with.
pub open spec fn grpc_code_of_wire(code: Seq<char>) -> GrpcCode {
    if code == "invalid_argument"@ {
        GrpcCode::InvalidArgument
    } else if code == "not_found"@ || code == "session_not_found"@ {
        GrpcCode::NotFound
    } else if code == "permission_denied"@ {
        GrpcCode::PermissionDenied
    } else if code == "session_busy"@ || code == "conflict"@ {
        GrpcCode::FailedPrecondition
    } else if code == "unavailable"@ {
        GrpcCode::Unavailable
    } else {
        GrpcCode::Internal
    }
}

/// Map an HTTP error body's code string onto a gRPC code.
pub fn grpc_code_for(code: &str) -> (res: GrpcCode)
    ensures
        res == grpc_code_of_wire(code@),
{
    if str_equals(code, "invalid_argument") {
        GrpcCode::InvalidArgument
    } else if str_equals(code, "not_found") || str_equals(code, "session_not_found") {
        GrpcCode::NotFound
    } else if str_equals(code, "permission_denied") {
        GrpcCode::PermissionDenied
    } else if str_equals(code, "session_busy") || str_equals(code, "conflict") {
        GrpcCode::FailedPrecondition
    } else if str_equals(code, "unavailable") {
        GrpcCode::Unavailable
    } else {
        GrpcCode::Internal
    }
}

/// A gRPC status: a code and a message.
#[derive(Debug)]
pub struct GrpcStatus {
    pub code: GrpcCode,
    pub message: String,
}

impl GrpcStatus {
    /// A status with the given code and message.
    pub fn new(code: GrpcCode, message: &str) -> (res: Self)
        ensures
            res.code == code,
            res.message@ == message@,
    {
        GrpcStatus { code, message: owned(message) }
    }
}

/// What `String::from_utf8_lossy` makes of a byte sequence.
pub uninterp spec fn lossy_utf8(bytes: Seq<u8>) -> Seq<char>;

/// Decodes bytes as UTF-8, replacing invalid sequences.
///
/// Calls `String::from_utf8_lossy`. The contract names the result, and states
/// the documented fact that valid UTF-8 is decoded unchanged; how invalid
/// sequences are replaced is left to the name.
#[verifier::external_body]
pub(crate) fn utf8_lossy(bytes: &[u8]) -> (res: String)
    ensures
        res@ == lossy_utf8(bytes@),
        valid_utf8(bytes@) ==> res@ == decode_utf8(bytes@),
{
    String::from_utf8_lossy(bytes).into_owned()
}

/// The gRPC status for a failed HTTP dispatch, from the code and message read
/// out of its `{"error": {"code", "message"}}` body (each `None` when absent or
/// not a string); without a message the body itself, decoded lossily, is used.
pub fn status_from_error_body(code: Option<String>, message: Option<String>, body: &[u8]) -> (res:
    GrpcStatus)
    ensures
        res.code == grpc_code_of_wire(
            match code {
                Some(c) => c@,
                None => Seq::empty(),
            },
        ),
        res.message@ == match message {
            Some(m) => m@,
            None => lossy_utf8(body@),
        },
        message is None && valid_utf8(body@) ==> res.message@ == decode_utf8(body@),
{
    let code_text = match code {
        Some(c) => c,
        None => String::new(),
    };
    let grpc = grpc_code_for(code_text.as_str());
    let text = match message {
        Some(m) => m,
        None => utf8_lossy(body),
    };
    GrpcStatus { code: grpc, message: text }
}

/// Whether `read` is what the member `error.<name>` of `body` holds when
/// `body` is the UTF-8 text of a rendered error: its code for `code`, its
/// message for `message`.
pub open spec fn reads_rendered_error(body: Seq<u8>, name: Seq<char>, read: Option<Seq<char>>) -> bool {
    forall|c: Seq<char>, m: Seq<char>|
        body == encode_utf8(#[trigger] error_body_text(c, m)) ==> (name == "code"@ ==> read
            == Some(c)) && (name == "message"@ ==> read == Some(m))
}

/// What parsing `body` as JSON and reading the string at `error.<name>` gives
/// (`None` when the body is not JSON or that member is absent or not a string).
pub uninterp spec fn json_error_field(body: Seq<u8>, name: Seq<char>) -> Option<Seq<char>>;

/// Reads the string member `error.<name>` of a JSON body.
///
/// Calls `serde_json::from_slice::<serde_json::Value>`, then `Value::get` for
/// `error` and for `name`, then `Value::as_str`. The result is named by
/// `json_error_field`. The contract also states what JSON itself fixes: in
/// the UTF-8 text `{"error":{"code":"C","message":"M"}}`, with `C` and `M`
/// escaped as JSON strings, the members `code` and `message` read back as the
/// unescaped `C` and `M`.
#[verifier::external_body]
fn error_body_field(body: &[u8], name: &str) -> (res: Option<String>)
    ensures
        res matches Some(s) ==> json_error_field(body@, name@) == Some(s@),
        res is None ==> json_error_field(body@, name@) is None,
        reads_rendered_error(body@, name@, opt_string_view(res)),
{
    let parsed: Option<serde_json::Value> = serde_json::from_slice(body).ok();
    parsed
        .as_ref()
        .and_then(|value| value.get("error"))
        .and_then(|error| error.get(name))
        .and_then(|field| field.as_str())
        .map(|text| text.to_owned())
}


/// The gRPC status for a failed HTTP dispatch with this body: the code and the
/// message are read out of its `{"error": {"code", "message"}}` JSON; without
/// a message the body itself, decoded lossily, is the message. A body that
/// renders an error reads back as that error's code and message.
pub fn status_from_body(body: &[u8]) -> (res: GrpcStatus)
    ensures
        res.code == grpc_code_of_wire(
            match json_error_field(body@, "code"@) {
                Some(c) => c,
                None => Seq::empty(),
            },
        ),
        res.message@ == match json_error_field(body@, "message"@) {
            Some(m) => m,
            None => lossy_utf8(body@),
        },
        json_error_field(body@, "message"@) is None && valid_utf8(body@) ==> res.message@
            == decode_utf8(body@),
        forall|c: Seq<char>, m: Seq<char>|
            body@ == encode_utf8(#[trigger] error_body_text(c, m)) ==> res.code
                == grpc_code_of_wire(c) && res.message@ == m,
        forall|e: V1Error|
            body@ == encode_utf8(#[trigger] error_body_text(e.code.wire_name(), e.message@))
                ==> res.code == e.code.grpc() && res.message@ == e.message@,
{
    let code = error_body_field(body, "code");
    let message = error_body_field(body, "message");
    proof {
        reveal_strlit("code");
        reveal_strlit("message");
        assert("code"@.len() != "message"@.len());
    }
    let ghost code_v = opt_string_view(code);
    let ghost message_v = opt_string_view(message);
    let res = status_from_error_body(code, message, body);
    proof {
        assert forall|c: Seq<char>, m: Seq<char>|
            body@ == encode_utf8(#[trigger] error_body_text(c, m)) implies res.code
                == grpc_code_of_wire(c) && res.message@ == m by {
            assert(code_v == Some(c));
            assert(message_v == Some(m));
        }
        assert forall|e: V1Error|
            body@ == encode_utf8(#[trigger] error_body_text(e.code.wire_name(), e.message@))
                implies res.code == e.code.grpc() && res.message@ == e.message@ by {
            lemma_error_code_parity(e.code);
            assert(code_v == Some(e.code.wire_name()));
            assert(message_v == Some(e.message@));
        }
    }
    res
}

/// The stable error table of the protocol: each code's wire name, HTTP
/// status and gRPC code.
pub proof fn lemma_stable_error_table()
    ensures
        Code::InvalidArgument.wire_name() == "invalid_argument"@ && Code::InvalidArgument.status()
            == 400 && Code::InvalidArgument.grpc() == GrpcCode::InvalidArgument,
        Code::NotFound.wire_name() == "not_found"@ && Code::NotFound.status() == 404
            && Code::NotFound.grpc() == GrpcCode::NotFound,
        Code::SessionNotFound.wire_name() == "session_not_found"@ && Code::SessionNotFound.status()
            == 404 && Code::SessionNotFound.grpc() == GrpcCode::NotFound,
        Code::PermissionDenied.wire_name() == "permission_denied"@ && Code::PermissionDenied.status()
            == 403 && Code::PermissionDenied.grpc() == GrpcCode::PermissionDenied,
        Code::SessionBusy.wire_name() == "session_busy"@ && Code::SessionBusy.status() == 409
            && Code::SessionBusy.grpc() == GrpcCode::FailedPrecondition,
        Code::Conflict.wire_name() == "conflict"@ && Code::Conflict.status() == 409
            && Code::Conflict.grpc() == GrpcCode::FailedPrecondition,
        Code::Unavailable.wire_name() == "unavailable"@ && Code::Unavailable.status() == 503
            && Code::Unavailable.grpc() == GrpcCode::Unavailable,
        Code::Internal.wire_name() == "internal"@ && Code::Internal.status() == 500
            && Code::Internal.grpc() == GrpcCode::Internal,
{
}

/// An HTTP error body whose code is none of the stable wire names is
/// answered with the gRPC code `Internal`.
pub proof fn lemma_unknown_codes_are_internal(code: Seq<char>)
    requires
        forall|c: Code| #[trigger] c.wire_name() != code,
    ensures
        grpc_code_of_wire(code) == GrpcCode::Internal,
{
    assert(Code::InvalidArgument.wire_name() != code);
    assert(Code::NotFound.wire_name() != code);
    assert(Code::SessionNotFound.wire_name() != code);
    assert(Code::PermissionDenied.wire_name() != code);
    assert(Code::SessionBusy.wire_name() != code);
    assert(Code::Conflict.wire_name() != code);
    assert(Code::Unavailable.wire_name() != code);
}

/// Parity of the two transports: the gRPC code that the gRPC binding derives
/// from an HTTP error body carrying a stable code is the gRPC code that the
/// stable error table gives that code.
pub proof fn lemma_error_code_parity(c: Code)
    ensures
        grpc_code_of_wire(c.wire_name()) == c.grpc(),
{
    reveal_strlit("invalid_argument");
    reveal_strlit("bad_request");
    reveal_strlit("not_found");
    reveal_strlit("session_not_found");
    reveal_strlit("permission_denied");
    reveal_strlit("forbidden");
    reveal_strlit("session_busy");
    reveal_strlit("conflict");
    reveal_strlit("unavailable");
    reveal_strlit("service_unavailable");
    reveal_strlit("internal");
    match c {
        Code::InvalidArgument => {},
        Code::NotFound => {
            assert("not_found"@.len() != "invalid_argument"@.len());
        },
        Code::SessionNotFound => {
            assert("session_not_found"@.len() != "invalid_argument"@.len());
        },
        Code::PermissionDenied => {
            assert("permission_denied"@.len() != "invalid_argument"@.len());
            assert("permission_denied"@.len() != "not_found"@.len());
            assert("permission_denied"@[0] != "session_not_found"@[0]);
        },
        Code::SessionBusy => {
            assert("session_busy"@.len() != "invalid_argument"@.len());
            assert("session_busy"@.len() != "not_found"@.len());
            assert("session_busy"@.len() != "session_not_found"@.len());
            assert("session_busy"@.len() != "permission_denied"@.len());
        },
        Code::Conflict => {
            assert("conflict"@.len() != "invalid_argument"@.len());
            assert("conflict"@.len() != "not_found"@.len());
            assert("conflict"@.len() != "session_not_found"@.len());
            assert("conflict"@.len() != "permission_denied"@.len());
            assert("conflict"@.len() != "session_busy"@.len());
        },
        Code::Unavailable => {
            assert("unavailable"@.len() != "invalid_argument"@.len());
            assert("unavailable"@.len() != "not_found"@.len());
            assert("unavailable"@.len() != "session_not_found"@.len());
            assert("unavailable"@.len() != "permission_denied"@.len());
            assert("unavailable"@.len() != "session_busy"@.len());
            assert("unavailable"@.len() != "conflict"@.len());
        },
        Code::Internal => {
            assert("internal"@.len() != "invalid_argument"@.len());
            assert("internal"@.len() != "not_found"@.len());
            assert("internal"@.len() != "session_not_found"@.len());
            assert("internal"@.len() != "permission_denied"@.len());
            assert("internal"@.len() != "session_busy"@.len());
            assert("internal"@[0] != "conflict"@[0]);
            assert("internal"@.len() != "unavailable"@.len());
        },
    }
}

/// A legacy error that already carries a stable wire name keeps its code,
/// except `not_found` and `conflict`, which the legacy surface folds into
/// `session_not_found` and `session_busy`.
pub proof fn lemma_legacy_keeps_stable_codes(c: Code)
    ensures
        c != Code::NotFound && c != Code::Conflict ==> legacy_code(Some(c.wire_name())) == c,
        c == Code::NotFound ==> legacy_code(Some(c.wire_name())) == Code::SessionNotFound,
        c == Code::Conflict ==> legacy_code(Some(c.wire_name())) == Code::SessionBusy,
{
    reveal_strlit("invalid_argument");
    reveal_strlit("bad_request");
    reveal_strlit("not_found");
    reveal_strlit("session_not_found");
    reveal_strlit("permission_denied");
    reveal_strlit("forbidden");
    reveal_strlit("session_busy");
    reveal_strlit("conflict");
    reveal_strlit("unavailable");
    reveal_strlit("service_unavailable");
    reveal_strlit("internal");
    let w = c.wire_name();
    match c {
        Code::InvalidArgument => {},
        Code::NotFound => {
            assert(w.len() != "invalid_argument"@.len());
            assert(w.len() != "bad_request"@.len());
        },
        Code::SessionNotFound => {
            assert(w.len() != "invalid_argument"@.len());
            assert(w.len() != "bad_request"@.len());
        },
        Code::PermissionDenied => {
            assert(w.len() != "invalid_argument"@.len());
            assert(w.len() != "bad_request"@.len());
            assert(w.len() != "not_found"@.len());
            assert(w[0] != "session_not_found"@[0]);
            assert(w.len() != "session_busy"@.len());
            assert(w.len() != "conflict"@.len());
            assert(w.len() != "forbidden"@.len());
        },
        Code::SessionBusy => {
            assert(w.len() != "invalid_argument"@.len());
            assert(w.len() != "bad_request"@.len());
            assert(w.len() != "not_found"@.len());
            assert(w.len() != "session_not_found"@.len());
        },
        Code::Conflict => {
            assert(w.len() != "invalid_argument"@.len());
            assert(w.len() != "bad_request"@.len());
            assert(w.len() != "not_found"@.len());
            assert(w.len() != "session_not_found"@.len());
            assert(w.len() != "session_busy"@.len());
        },
        Code::Unavailable => {
            assert(w.len() != "invalid_argument"@.len());
            assert(w[0] != "bad_request"@[0]);
            assert(w.len() != "not_found"@.len());
            assert(w.len() != "session_not_found"@.len());
            assert(w.len() != "session_busy"@.len());
            assert(w.len() != "conflict"@.len());
            assert(w.len() != "forbidden"@.len());
            assert(w.len() != "permission_denied"@.len());
        },
        Code::Internal => {
            assert(w.len() != "invalid_argument"@.len());
            assert(w.len() != "bad_request"@.len());
            assert(w.len() != "not_found"@.len());
            assert(w.len() != "session_not_found"@.len());
            assert(w.len() != "session_busy"@.len());
            assert(w[0] != "conflict"@[0]);
            assert(w.len() != "forbidden"@.len());
            assert(w.len() != "permission_denied"@.len());
            assert(w.len() != "unavailable"@.len());
            assert(w.len() != "service_unavailable"@.len());
        },
    }
}

} // verus!
