//! Live frames for the pending permission and question planes.
//!
//! A pending-plane broadcast is a JSON notice `{"type", "properties"}`; the
//! caller reads the fields that matter into a [`PendingNotice`], and
//! [`interaction_frame`] maps it onto a live stream frame, honoring the session
//! filter of session-scoped streams. These frames are live-only: their
//! sequence number is 0.
use vstd::prelude::*;
use crate::text::{opt_str_view, push_char, str_equals, trim, trimmed};

verus! {

/// The fields of the first entry of a question notice's `questions` list;
/// all absent when there is no first entry.
#[derive(Debug)]
pub struct QuestionFields {
    /// `question`, when it is a string.
    pub question: Option<String>,
    /// `header`, when it is a string.
    pub header: Option<String>,
    /// `options` when it is a list: each row's `label` when it is a string.
    pub option_labels: Option<Vec<Option<String>>>,
}

/// The `properties` of a pending notice; each field is `None` when absent or
/// not a string.
#[derive(Debug)]
pub struct NoticeProperties {
    /// `sessionID`.
    pub session_id: Option<String>,
    /// `id`.
    pub id: Option<String>,
    /// `permission`.
    pub permission: Option<String>,
    /// `patterns` when it is a list: each row when it is a string.
    pub patterns: Option<Vec<Option<String>>>,
    /// `requestID`.
    pub request_id: Option<String>,
    /// The first entry of `questions`.
    pub first_question: QuestionFields,
}

/// A pending-plane notice: its `type` (when a string) and its `properties`
/// (`None` when the key is absent).
#[derive(Debug)]
pub struct PendingNotice {
    pub kind: Option<String>,
    pub properties: Option<NoticeProperties>,
}

/// The kind of a pending interaction.
#[derive(Clone, Copy, Debug, PartialEq, Eq, Structural)]
pub enum InteractionType {
    Permission,
    Question,
}

/// A pending interaction as the stream reports it.
#[derive(Debug)]
pub struct Interaction {
    pub id: String,
    pub session: String,
    pub kind: InteractionType,
    pub title: String,
    pub detail: String,
    pub options: Vec<String>,
}

/// The payload of an interaction frame.
#[derive(Debug)]
pub enum InteractionPayload {
    PermissionRequested { request: String, interaction: Interaction },
    QuestionRequested { request: String, interaction: Interaction },
    InteractionResolved { request: String },
}

/// A live stream frame built from a pending notice.
#[derive(Debug)]
pub struct LiveFrame {
    /// Always 0: pending-plane frames are live-only.
    pub seq: u64,
    pub session: String,
    /// Milliseconds since the Unix epoch when the frame was recorded.
    pub time_recorded_ms: i64,
    pub payload: InteractionPayload,
}

/// The text of an optional string field, empty when absent.
pub open spec fn text_of(field: Option<String>) -> Seq<char> {
    match field {
        Some(s) => s@,
        None => Seq::empty(),
    }
}

/// The text of an optional string field, empty when absent.
pub fn field_str(field: &Option<String>) -> (res: String)
    ensures
        res@ == text_of(*field),
{
    match field {
        Some(s) => s.clone(),
        None => String::new(),
    }
}

/// The strings among `rows`, in order.
pub open spec fn present_texts(rows: Seq<Option<String>>) -> Seq<Seq<char>> {
    rows.filter_map(|o: Option<String>| match o {
        Some(s) => Some(s@),
        None => None,
    })
}

/// `parts` joined with `sep` between consecutive parts.
pub open spec fn joined(parts: Seq<Seq<char>>, sep: Seq<char>) -> Seq<char>
    decreases parts.len(),
{
    if parts.len() == 0 {
        Seq::empty()
    } else if parts.len() == 1 {
        parts[0]
    } else {
        joined(parts.drop_last(), sep) + sep + parts.last()
    }
}

/// The title of a permission request: the permission and its patterns,
/// space separated, trimmed.
pub open spec fn permission_title(p: NoticeProperties) -> Seq<char> {
    let patterns = match p.patterns {
        Some(rows) => joined(present_texts(rows@), " "@),
        None => Seq::empty(),
    };
    trimmed(text_of(p.permission) + " "@ + patterns)
}

/// The option labels of a question request.
pub open spec fn question_options(q: QuestionFields) -> Seq<Seq<char>> {
    match q.option_labels {
        Some(rows) => present_texts(rows@),
        None => Seq::empty(),
    }
}

/// The views of a sequence of strings.
pub open spec fn views(v: Seq<String>) -> Seq<Seq<char>> {
    v.map_values(|s: String| s@)
}

/// The strings among `rows`, in order.
fn collect_present(rows: &Vec<Option<String>>) -> (res: Vec<String>)
    ensures
        views(res@) == present_texts(rows@),
{
    let mut out: Vec<String> = Vec::new();
    let mut i: usize = 0;
    while i < rows.len()
        invariant
            i <= rows@.len(),
            views(out@) == present_texts(rows@.take(i as int)),
        decreases rows@.len() - i,
    {
        let ghost prev = rows@.take(i as int);
        let ghost cur = rows@.take(i + 1);
        proof {
            assert(cur.drop_last() =~= prev);
            assert(cur.last() == rows@[i as int]);
        }
        match &rows[i] {
            Some(s) => {
                let ghost before = out@;
                out.push(s.clone());
                proof {
                    assert(views(out@) =~= views(before).push(s@));
                    assert(views(out@) =~= present_texts(prev) + seq![s@]);
                }
            },
            None => {},
        }
        i = i + 1;
    }
    proof {
        assert(rows@.take(rows@.len() as int) =~= rows@);
    }
    out
}

/// `parts` joined with single spaces.
fn join_with_spaces(parts: &Vec<String>) -> (res: String)
    ensures
        res@ == joined(views(parts@), " "@),
{
    let mut out = String::new();
    let mut i: usize = 0;
    while i < parts.len()
        invariant
            i <= parts@.len(),
            out@ == joined(views(parts@).take(i as int), " "@),
        decreases parts@.len() - i,
    {
        let ghost prev = views(parts@).take(i as int);
        let ghost cur = views(parts@).take(i + 1);
        proof {
            assert(cur.drop_last() =~= prev);
            assert(cur.last() == parts@[i as int]@);
        }
        let ghost before = out@;
        if i > 0 {
            push_char(&mut out, ' ');
        }
        out.append(parts[i].as_str());
        proof {
            reveal_strlit(" ");
            if i > 0 {
                assert(out@ =~= before + " "@ + cur.last());
            } else {
                assert(cur.len() == 1);
                assert(out@ =~= cur[0]);
            }
        }
        i = i + 1;
    }
    proof {
        assert(views(parts@).take(parts@.len() as int) =~= views(parts@));
    }
    out
}

/// Whether a session-scoped stream drops a frame of `frame_session`: it does
/// when the frame names another session.
pub open spec fn filtered_out(session: Option<Seq<char>>, frame_session: Seq<char>) -> bool {
    match session {
        Some(s) => frame_session.len() > 0 && frame_session != s,
        None => false,
    }
}

/// Notice types that resolve a pending interaction.
pub open spec fn is_resolution_kind(kind: Seq<char>) -> bool {
    kind == "permission.replied"@ || kind == "question.replied"@ || kind == "question.rejected"@
}

/// Whether `i` is the interaction with the given fields.
pub open spec fn interaction_is(
    i: Interaction,
    id: Seq<char>,
    session: Seq<char>,
    kind: InteractionType,
    title: Seq<char>,
    detail: Seq<char>,
    options: Seq<Seq<char>>,
) -> bool {
    &&& i.id@ == id
    &&& i.session@ == session
    &&& i.kind == kind
    &&& i.title@ == title
    &&& i.detail@ == detail
    &&& views(i.options@) == options
}

/// The frame that a pending notice maps onto, recorded at `now_ms`: `None`
/// when the notice has no properties, names another session than the
/// stream's, or has no interaction type; otherwise a permission request, a
/// question request, or a resolution.
pub open spec fn frame_matches(
    res: Option<LiveFrame>,
    notice: PendingNotice,
    session: Option<Seq<char>>,
    now_ms: i64,
) -> bool {
    match notice.properties {
        None => res is None,
        Some(p) => {
            let fs = text_of(p.session_id);
            let kind = text_of(notice.kind);
            let q = p.first_question;
            if filtered_out(session, fs) {
                res is None
            } else if kind == "permission.asked"@ {
                &&& res matches Some(f)
                &&& f.seq == 0
                &&& f.session@ == fs
                &&& f.time_recorded_ms == now_ms
                &&& f.payload matches InteractionPayload::PermissionRequested {
                    request,
                    interaction,
                }
                &&& request@ == text_of(p.id)
                &&& interaction_is(
                    interaction,
                    text_of(p.id),
                    fs,
                    InteractionType::Permission,
                    permission_title(p),
                    Seq::empty(),
                    Seq::empty(),
                )
            } else if kind == "question.asked"@ {
                &&& res matches Some(f)
                &&& f.seq == 0
                &&& f.session@ == fs
                &&& f.time_recorded_ms == now_ms
                &&& f.payload matches InteractionPayload::QuestionRequested { request, interaction }
                &&& request@ == text_of(p.id)
                &&& interaction_is(
                    interaction,
                    text_of(p.id),
                    fs,
                    InteractionType::Question,
                    text_of(q.question),
                    text_of(q.header),
                    question_options(q),
                )
            } else if is_resolution_kind(kind) {
                &&& res matches Some(f)
                &&& f.seq == 0
                &&& f.session@ == fs
                &&& f.time_recorded_ms == now_ms
                &&& f.payload matches InteractionPayload::InteractionResolved { request }
                &&& request@ == text_of(p.request_id)
            } else {
                res is None
            }
        },
    }
}

/// What every interaction frame carries, whatever the notice holds: a frame
/// exists exactly for notices with properties, of an asked or resolving type,
/// whose session is the stream's (or unset, or any on a global stream); it is
/// live-only (`seq` 0) and names the notice's session; an asked notice yields
/// a request of its own kind whose request id and interaction id are both the
/// notice's `id`, a resolving notice the resolution of its `requestID`.
pub proof fn lemma_interaction_frame_ids(
    res: Option<LiveFrame>,
    notice: PendingNotice,
    session: Option<Seq<char>>,
    now_ms: i64,
)
    requires
        frame_matches(res, notice, session, now_ms),
    ensures
        res is Some <==> (notice.properties matches Some(p) && (session matches Some(s) ==> (
        text_of(p.session_id).len() == 0 || text_of(p.session_id) == s)) && (text_of(notice.kind)
            == "permission.asked"@ || text_of(notice.kind) == "question.asked"@ || text_of(
            notice.kind,
        ) == "permission.replied"@ || text_of(notice.kind) == "question.replied"@ || text_of(
            notice.kind,
        ) == "question.rejected"@)),
        res matches Some(f) ==> (notice.properties matches Some(p) && f.seq == 0 && f.session@
            == text_of(p.session_id) && (text_of(notice.kind) == "permission.asked"@ ==> (
        f.payload matches InteractionPayload::PermissionRequested { request, interaction }
            && request@ == text_of(p.id) && interaction.id@ == text_of(p.id) && interaction.kind
            == InteractionType::Permission)) && (text_of(notice.kind) == "question.asked"@ ==> (
        f.payload matches InteractionPayload::QuestionRequested { request, interaction }
            && request@ == text_of(p.id) && interaction.id@ == text_of(p.id) && interaction.kind
            == InteractionType::Question)) && (text_of(notice.kind) != "permission.asked"@
            && text_of(notice.kind) != "question.asked"@ ==> (
        f.payload matches InteractionPayload::InteractionResolved { request } && request@
            == text_of(p.request_id)))),
{
    reveal_strlit("permission.asked");
    reveal_strlit("question.asked");
    assert("permission.asked"@.len() != "question.asked"@.len());
}

/// Map one pending-plane notice onto a live frame recorded at `now_ms`,
/// honoring the session filter (`session`) of a session-scoped stream.
pub fn interaction_frame_at(notice: &PendingNotice, session: Option<&str>, now_ms: i64) -> (res:
    Option<LiveFrame>)
    ensures
        frame_matches(
            res,
            *notice,
            opt_str_view(session),
            now_ms,
        ),
{
    let props = match &notice.properties {
        None => {
            return None;
        },
        Some(p) => p,
    };
    let kind = field_str(&notice.kind);
    let frame_session = field_str(&props.session_id);
    match session {
        Some(s) => {
            if !frame_session.as_str().is_empty() && !str_equals(frame_session.as_str(), s) {
                return None;
            }
        },
        None => {},
    }
    let payload = if str_equals(kind.as_str(), "permission.asked") {
        let id = field_str(&props.id);
        let patterns = match &props.patterns {
            Some(rows) => join_with_spaces(&collect_present(rows)),
            None => String::new(),
        };
        let mut raw = field_str(&props.permission);
        push_char(&mut raw, ' ');
        raw.append(patterns.as_str());
        proof {
            reveal_strlit(" ");
            assert(raw@ =~= text_of(props.permission) + " "@ + patterns@);
        }
        let title = trim(raw.as_str());
        let interaction = Interaction {
            id: id.clone(),
            session: frame_session.clone(),
            kind: InteractionType::Permission,
            title,
            detail: String::new(),
            options: Vec::new(),
        };
        proof {
            assert(views(interaction.options@) =~= Seq::<Seq<char>>::empty());
        }
        InteractionPayload::PermissionRequested { request: id, interaction }
    } else if str_equals(kind.as_str(), "question.asked") {
        let q = &props.first_question;
        let id = field_str(&props.id);
        let options = match &q.option_labels {
            Some(rows) => collect_present(rows),
            None => Vec::new(),
        };
        proof {
            if q.option_labels is None {
                assert(views(options@) =~= Seq::<Seq<char>>::empty());
            }
        }
        let interaction = Interaction {
            id: id.clone(),
            session: frame_session.clone(),
            kind: InteractionType::Question,
            title: field_str(&q.question),
            detail: field_str(&q.header),
            options,
        };
        InteractionPayload::QuestionRequested { request: id, interaction }
    } else if str_equals(kind.as_str(), "permission.replied") || str_equals(
        kind.as_str(),
        "question.replied",
    ) || str_equals(kind.as_str(), "question.rejected") {
        InteractionPayload::InteractionResolved { request: field_str(&props.request_id) }
    } else {
        return None;
    };
    Some(LiveFrame { seq: 0, session: frame_session, time_recorded_ms: now_ms, payload })
}

/// Map one pending-plane notice onto a live frame recorded now.
pub fn interaction_frame(notice: &PendingNotice, session: Option<&str>) -> (res: Option<LiveFrame>)
    ensures
        exists|t: i64|
            #[trigger] frame_matches(
                res,
                *notice,
                opt_str_view(session),
                t,
            ),
{
    let now = now_millis();
    interaction_frame_at(notice, session, now)
}

#[verifier::external_type_specification]
#[verifier::external_body]
pub struct ExSystemTime(std::time::SystemTime);

/// The current system time.
///
/// Calls `SystemTime::now`; nothing is stated of the value, which depends on
/// the clock.
#[verifier::external_body]
fn system_now() -> std::time::SystemTime {
    std::time::SystemTime::now()
}

/// The time elapsed from the Unix epoch to `t`, `None` when `t` lies before it.
///
/// Calls `SystemTime::duration_since(UNIX_EPOCH)`; nothing is stated of the
/// duration, since the time itself is unknown to the contracts.
#[verifier::external_body]
fn duration_since_epoch(t: &std::time::SystemTime) -> Option<core::time::Duration> {
    t.duration_since(std::time::UNIX_EPOCH).ok()
}

/// The whole milliseconds of a duration.
///
/// Calls `Duration::as_millis`; the duration is opaque to the contracts, so
/// nothing is stated of the count.
#[verifier::external_body]
fn duration_millis(d: &core::time::Duration) -> u128 {
    d.as_millis()
}

/// Milliseconds since the Unix epoch as the stream records them: the count
/// truncated to `i64`, or 0 when the clock reads before the epoch.
pub fn millis_to_i64(millis: Option<u128>) -> (res: i64)
    ensures
        res == match millis {
            Some(ms) => ms as i64,
            None => 0,
        },
{
    match millis {
        Some(ms) => {
            #[verifier::truncate]
            (ms as i64)
        },
        None => 0,
    }
}

/// The current time in milliseconds since the Unix epoch, 0 when the clock
/// reads before the epoch.
pub fn now_millis() -> i64 {
    let now = system_now();
    let millis = match duration_since_epoch(&now) {
        Some(d) => Some(duration_millis(&d)),
        None => None,
    };
    millis_to_i64(millis)
}

} // verus!
