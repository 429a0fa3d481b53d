//! `/v1` events domain: replay selection and the watermark that merges the
//! replay of durable events with the live bus.
//!
//! Every stream, session or global, first replays the durable events after
//! its `since_seq` watermark, then joins the live bus. On a session stream the
//! watermark moves with each event and suppresses events seen in both feeds;
//! on the global stream live events are filtered by `since_seq` and by the
//! highest replayed event of their own session.
use vstd::prelude::*;
use crate::error::{Code, V1Error};

verus! {

/// What the watermark logic knows of a stream: its session filter (`None` for
/// the global stream), the requested `since_seq`, the highest sequence number
/// seen so far, and, on the global stream, the highest replayed sequence
/// number of each session (`None` for events without a session).
pub struct CursorState {
    pub session: Option<Seq<char>>,
    pub since: u64,
    pub watermark: u64,
    pub replayed: Map<Option<Seq<char>>, u64>,
}

/// The larger of two sequence numbers.
pub open spec fn max_u64(a: u64, b: u64) -> u64 {
    if a >= b {
        a
    } else {
        b
    }
}

/// The highest replayed sequence number of `event_session` on the global
/// stream (0 when none was replayed).
pub open spec fn replayed_seq(st: CursorState, event_session: Option<Seq<char>>) -> u64 {
    if st.replayed.contains_key(event_session) {
        st.replayed[event_session]
    } else {
        0
    }
}

/// The state after the replay feed produced a durable event of
/// `event_session` with sequence number `seq`: events after `since` move the
/// watermark up to `seq`, and on the global stream the replayed mark of their
/// session.
pub open spec fn after_replay(st: CursorState, event_session: Option<Seq<char>>, seq: u64) -> CursorState {
    if seq > st.since {
        CursorState {
            watermark: max_u64(st.watermark, seq),
            replayed: if st.session is None {
                st.replayed.insert(event_session, max_u64(replayed_seq(st, event_session), seq))
            } else {
                st.replayed
            },
            ..st
        }
    } else {
        st
    }
}

/// The sequence number a live event of `event_session` must exceed: the
/// moving watermark on a session stream; on the global stream `since`, and
/// every replayed event of the same session.
pub open spec fn live_threshold(st: CursorState, event_session: Option<Seq<char>>) -> u64 {
    if st.session is Some {
        st.watermark
    } else {
        max_u64(st.since, replayed_seq(st, event_session))
    }
}

/// Whether a live event of `event_session` belongs to the stream: always on
/// the global stream, only events of the stream's session otherwise.
pub open spec fn in_scope(st: CursorState, event_session: Option<Seq<char>>) -> bool {
    match st.session {
        Some(s) => event_session == Some(s),
        None => true,
    }
}

/// The state after the live feed produced an event: on a session stream an
/// in-scope event above the watermark moves the watermark up to it.
pub open spec fn after_live(
    st: CursorState,
    event_session: Option<Seq<char>>,
    seq: u64,
) -> CursorState {
    if in_scope(st, event_session) && seq > live_threshold(st, event_session) && st.session is Some {
        CursorState { watermark: max_u64(st.watermark, seq), ..st }
    } else {
        st
    }
}

/// Whether a live event is delivered: it is in scope, above the threshold,
/// and it maps to a stream frame (`has_frame`).
pub open spec fn live_delivers(
    st: CursorState,
    event_session: Option<Seq<char>>,
    seq: u64,
    has_frame: bool,
) -> bool {
    in_scope(st, event_session) && seq > live_threshold(st, event_session) && has_frame
}

/// The sequence number a resync frame reports when the live feed lags: the
/// watermark on a session stream, `since` on the global stream.
pub open spec fn resync_seq(st: CursorState) -> u64 {
    if st.session is Some {
        st.watermark
    } else {
        st.since
    }
}

/// The views of optional strings.
pub open spec fn opt_view(o: Option<String>) -> Option<Seq<char>> {
    match o {
        Some(s) => Some(s@),
        None => None,
    }
}

/// The map that a list of per-session marks stands for, later entries
/// replacing earlier ones.
pub open spec fn marks_map(v: Seq<(Option<String>, u64)>) -> Map<Option<Seq<char>>, u64>
    decreases v.len(),
{
    if v.len() == 0 {
        Map::empty()
    } else {
        marks_map(v.drop_last()).insert(opt_view(v.last().0), v.last().1)
    }
}

/// Whether the sessions of a list of marks are pairwise distinct.
pub open spec fn marks_unique(v: Seq<(Option<String>, u64)>) -> bool {
    forall|i: int, j: int|
        0 <= i < j < v.len() ==> opt_view((#[trigger] v[i]).0) != opt_view((#[trigger] v[j]).0)
}

proof fn lemma_marks_map_at(v: Seq<(Option<String>, u64)>, i: int)
    requires
        marks_unique(v),
        0 <= i < v.len(),
    ensures
        marks_map(v).contains_key(opt_view(v[i].0)),
        marks_map(v)[opt_view(v[i].0)] == v[i].1,
    decreases v.len(),
{
    if i < v.len() - 1 {
        lemma_marks_map_at(v.drop_last(), i);
        assert(opt_view(v.last().0) != opt_view(v[i].0));
    }
}

proof fn lemma_marks_map_absent(v: Seq<(Option<String>, u64)>, k: Option<Seq<char>>)
    requires
        forall|i: int| 0 <= i < v.len() ==> opt_view((#[trigger] v[i]).0) != k,
    ensures
        !marks_map(v).contains_key(k),
    decreases v.len(),
{
    if v.len() > 0 {
        lemma_marks_map_absent(v.drop_last(), k);
        assert(opt_view(v.last().0) != k);
    }
}

proof fn lemma_marks_map_update(v: Seq<(Option<String>, u64)>, i: int, e: (Option<String>, u64))
    requires
        marks_unique(v),
        0 <= i < v.len(),
        opt_view(v[i].0) == opt_view(e.0),
    ensures
        marks_map(v.update(i, e)) =~= marks_map(v).insert(opt_view(e.0), e.1),
    decreases v.len(),
{
    let t = v.update(i, e);
    if i == v.len() - 1 {
        assert(t.drop_last() =~= v.drop_last());
    } else {
        assert(t.drop_last() =~= v.drop_last().update(i, e));
        lemma_marks_map_update(v.drop_last(), i, e);
        assert(opt_view(v.last().0) != opt_view(e.0));
    }
}

fn same_session(a: &Option<String>, b: Option<&str>) -> (res: bool)
    ensures
        res == (opt_view(*a) == match b {
            Some(e) => Some(e@),
            None => None,
        }),
{
    match a {
        None => b.is_none(),
        Some(s) => match b {
            None => false,
            Some(e) => crate::text::str_equals(s.as_str(), e),
        },
    }
}

/// The watermark of one event stream.
pub struct FrameCursor {
    session: Option<String>,
    since: u64,
    watermark: u64,
    replayed: Vec<(Option<String>, u64)>,
}

impl View for FrameCursor {
    type V = CursorState;

    closed spec fn view(&self) -> CursorState {
        CursorState {
            session: opt_view(self.session),
            since: self.since,
            watermark: self.watermark,
            replayed: marks_map(self.replayed@),
        }
    }
}

impl FrameCursor {
    #[verifier::type_invariant]
    spec fn marks_well_formed(self) -> bool {
        marks_unique(self.replayed@)
    }

    /// A cursor for a stream scoped to `session` (or global): both scopes
    /// first replay the durable events after `since_seq`, then go live.
    pub fn new(session: Option<String>, since_seq: u64) -> (res: Self)
        ensures
            res@.session == opt_view(session),
            res@.since == since_seq,
            res@.watermark == since_seq,
            res@.replayed == Map::<Option<Seq<char>>, u64>::empty(),
    {
        FrameCursor { session, since: since_seq, watermark: since_seq, replayed: Vec::new() }
    }

    fn marked(&self, event_session: Option<&str>) -> (res: u64)
        ensures
            res == replayed_seq(
                self@,
                match event_session {
                    Some(e) => Some(e@),
                    None => None,
                },
            ),
    {
        proof {
            use_type_invariant(self);
        }
        let ghost k = match event_session {
            Some(e) => Some(e@),
            None => None,
        };
        let mut i: usize = 0;
        while i < self.replayed.len()
            invariant
                i <= self.replayed@.len(),
                marks_unique(self.replayed@),
                k == match event_session {
                    Some(e) => Some(e@),
                    None => None,
                },
                forall|j: int| 0 <= j < i ==> opt_view((#[trigger] self.replayed@[j]).0) != k,
            decreases self.replayed@.len() - i,
        {
            if same_session(&self.replayed[i].0, event_session) {
                proof {
                    lemma_marks_map_at(self.replayed@, i as int);
                }
                return self.replayed[i].1;
            }
            i = i + 1;
        }
        proof {
            lemma_marks_map_absent(self.replayed@, k);
        }
        0
    }

    /// Feed one replayed durable event of `event_session` with sequence
    /// number `seq`; returns whether it lies after `since_seq` (and so is
    /// emitted if it maps to a frame).
    pub fn replay(&mut self, event_session: Option<&str>, seq: u64) -> (passes: bool)
        ensures
            passes == (seq > old(self)@.since),
            final(self)@ == after_replay(
                old(self)@,
                match event_session {
                    Some(e) => Some(e@),
                    None => None,
                },
                seq,
            ),
    {
        proof {
            use_type_invariant(&*self);
        }
        if seq <= self.since {
            return false;
        }
        if seq > self.watermark {
            self.watermark = seq;
        }
        if self.session.is_none() {
            let current = self.marked(event_session);
            let mark = if seq > current {
                seq
            } else {
                current
            };
            let key: Option<String> = match event_session {
                Some(e) => Some(crate::text::owned(e)),
                None => None,
            };
            let ghost k = opt_view(key);
            let mut i: usize = 0;
            while i < self.replayed.len()
                invariant
                    i <= self.replayed@.len(),
                    marks_unique(self.replayed@),
                    k == opt_view(key),
                    k == match event_session {
                        Some(e) => Some(e@),
                        None => None,
                    },
                    self.session is None,
                    seq > self.since,
                    self.watermark == max_u64(old(self).watermark, seq),
                    self.session == old(self).session,
                    self.since == old(self).since,
                    self.replayed@ == old(self).replayed@,
                    mark == max_u64(replayed_seq(old(self)@, k), seq),
                    forall|j: int| 0 <= j < i ==> opt_view((#[trigger] self.replayed@[j]).0) != k,
                decreases self.replayed@.len() - i,
            {
                if same_session(&self.replayed[i].0, event_session) {
                    let ghost v = self.replayed@;
                    proof {
                        lemma_marks_map_update(v, i as int, (key, mark));
                    }
                    let mut marks: Vec<(Option<String>, u64)> = Vec::new();
                    std::mem::swap(&mut marks, &mut self.replayed);
                    marks.set(i, (key, mark));
                    proof {
                        assert(marks@ =~= v.update(i as int, (key, mark)));
                        assert forall|a: int, b: int| 0 <= a < b < marks@.len() implies opt_view(
                            (#[trigger] marks@[a]).0,
                        ) != opt_view((#[trigger] marks@[b]).0) by {
                            assert(opt_view(v[a].0) != opt_view(v[b].0));
                        }
                    }
                    self.replayed = marks;
                    return true;
                }
                i = i + 1;
            }
            let ghost v = self.replayed@;
            let mut marks: Vec<(Option<String>, u64)> = Vec::new();
            std::mem::swap(&mut marks, &mut self.replayed);
            marks.push((key, mark));
            proof {
                assert(marks@.drop_last() =~= v);
                assert forall|a: int, b: int| 0 <= a < b < marks@.len() implies opt_view(
                    (#[trigger] marks@[a]).0,
                ) != opt_view((#[trigger] marks@[b]).0) by {
                    if b < v.len() {
                        assert(opt_view(v[a].0) != opt_view(v[b].0));
                    } else {
                        assert(opt_view(v[a].0) != k);
                    }
                }
            }
            self.replayed = marks;
        }
        true
    }

    /// Feed one live event of `event_session` with sequence number `seq`;
    /// `has_frame` says whether it maps to a stream frame. Returns whether the
    /// event is delivered.
    pub fn live(&mut self, event_session: Option<&str>, seq: u64, has_frame: bool) -> (delivered:
        bool)
        ensures
            delivered == live_delivers(
                old(self)@,
                match event_session {
                    Some(e) => Some(e@),
                    None => None,
                },
                seq,
                has_frame,
            ),
            final(self)@ == after_live(
                old(self)@,
                match event_session {
                    Some(e) => Some(e@),
                    None => None,
                },
                seq,
            ),
    {
        proof {
            use_type_invariant(&*self);
        }
        match &self.session {
            Some(s) => match event_session {
                Some(e) => {
                    if !crate::text::str_equals(s.as_str(), e) {
                        return false;
                    }
                },
                None => {
                    return false;
                },
            },
            None => {},
        }
        let threshold = if self.session.is_some() {
            self.watermark
        } else {
            let mark = self.marked(event_session);
            if mark > self.since {
                mark
            } else {
                self.since
            }
        };
        if seq <= threshold {
            return false;
        }
        if self.session.is_some() && seq > self.watermark {
            self.watermark = seq;
        }
        has_frame
    }

    /// The sequence number reported by a resync frame.
    pub fn resync_seq(&self) -> (res: u64)
        ensures
            res == resync_seq(self@),
    {
        if self.session.is_some() {
            self.watermark
        } else {
            self.since
        }
    }
}

/// A live envelope as the watermark sees it: its session, its sequence number,
/// and whether it maps to a stream frame.
pub type LiveEnvelope = (Option<Seq<char>>, u64, bool);

/// Run the live feed over `events`: the final state and the sequence numbers
/// of the delivered events, in order.
pub open spec fn live_run(st: CursorState, events: Seq<LiveEnvelope>) -> (CursorState, Seq<u64>)
    decreases events.len(),
{
    if events.len() == 0 {
        (st, Seq::empty())
    } else {
        let (mid, delivered) = live_run(st, events.drop_last());
        let e = events.last();
        let out = if live_delivers(mid, e.0, e.1, e.2) {
            delivered.push(e.1)
        } else {
            delivered
        };
        (after_live(mid, e.0, e.1), out)
    }
}

/// A replayed durable event as the watermark sees it: its session and its
/// sequence number.
pub type ReplayedEnvelope = (Option<Seq<char>>, u64);

/// Run the replay feed over `events`: the final state.
pub open spec fn replay_run(st: CursorState, events: Seq<ReplayedEnvelope>) -> CursorState
    decreases events.len(),
{
    if events.len() == 0 {
        st
    } else {
        after_replay(replay_run(st, events.drop_last()), events.last().0, events.last().1)
    }
}

/// On a session stream, no live event is delivered twice and none at or
/// below an event already seen: the delivered sequence numbers strictly
/// increase, they all exceed the watermark the live feed started from, and
/// the watermark ends at the last of them (or stays where it was).
pub proof fn lemma_session_live_strictly_increasing(st: CursorState, events: Seq<LiveEnvelope>)
    requires
        st.session is Some,
    ensures
        ({
            let (fin, delivered) = live_run(st, events);
            &&& fin.session == st.session
            &&& fin.since == st.since
            &&& fin.watermark >= st.watermark
            &&& forall|i: int, j: int|
                0 <= i < j < delivered.len() ==> #[trigger] delivered[i] < #[trigger] delivered[j]
            &&& forall|i: int| 0 <= i < delivered.len() ==> st.watermark < #[trigger] delivered[i]
            &&& forall|i: int| 0 <= i < delivered.len() ==> #[trigger] delivered[i] <= fin.watermark
        }),
    decreases events.len(),
{
    if events.len() > 0 {
        lemma_session_live_strictly_increasing(st, events.drop_last());
    }
}

/// On the global stream the state never moves while live: a live event is
/// delivered exactly when it lies above `since` and above every replayed
/// event of its session, and maps to a frame.
pub proof fn lemma_global_live_filter(st: CursorState, events: Seq<LiveEnvelope>)
    requires
        st.session is None,
    ensures
        live_run(st, events).0 == st,
        live_run(st, events).1 == events.filter(
            |e: LiveEnvelope| e.1 > live_threshold(st, e.0) && e.2,
        ).map_values(|e: LiveEnvelope| e.1),
    decreases events.len(),
{
    reveal(Seq::filter);
    if events.len() > 0 {
        lemma_global_live_filter(st, events.drop_last());
        let p = |e: LiveEnvelope| e.1 > live_threshold(st, e.0) && e.2;
        let f = |e: LiveEnvelope| e.1;
        let prefix = events.drop_last().filter(p);
        if p(events.last()) {
            assert(prefix.push(events.last()).map_values(f) =~= prefix.map_values(f).push(
                events.last().1,
            ));
        }
    }
}

/// Replay leaves no gap and no overlap with the live feed: after replaying
/// `events`, the watermark is at least every replayed sequence number after
/// `since`, and on the global stream so is the replayed mark of its session.
pub proof fn lemma_replay_raises_watermark(st: CursorState, events: Seq<ReplayedEnvelope>)
    ensures
        replay_run(st, events).session == st.session,
        replay_run(st, events).since == st.since,
        replay_run(st, events).watermark >= st.watermark,
        forall|k: Option<Seq<char>>|
            replayed_seq(#[trigger] replay_run(st, events), k) >= replayed_seq(st, k),
        forall|i: int|
            0 <= i < events.len() && (#[trigger] events[i]).1 > st.since ==> events[i].1
                <= replay_run(st, events).watermark,
        st.session is None ==> forall|i: int|
            0 <= i < events.len() && (#[trigger] events[i]).1 > st.since ==> events[i].1
                <= replayed_seq(replay_run(st, events), events[i].0),
    decreases events.len(),
{
    if events.len() > 0 {
        let q = events.drop_last();
        lemma_replay_raises_watermark(st, q);
        let mid = replay_run(st, q);
        let fin = replay_run(st, events);
        assert forall|k: Option<Seq<char>>| replayed_seq(fin, k) >= replayed_seq(mid, k) by {}
        assert forall|i: int| 0 <= i < events.len() && (#[trigger] events[i]).1 > st.since implies events[i].1
            <= fin.watermark by {
            if i < events.len() - 1 {
                assert(events[i] == q[i]);
            }
        }
        if st.session is None {
            assert forall|i: int| 0 <= i < events.len() && (#[trigger] events[i]).1 > st.since implies events[i].1
                <= replayed_seq(fin, events[i].0) by {
                if i < events.len() - 1 {
                    assert(events[i] == q[i]);
                    assert(replayed_seq(fin, events[i].0) >= replayed_seq(mid, events[i].0));
                }
            }
        }
    }
}

/// A session stream never delivers a durable event twice: every live event
/// it delivers after the replay lies above every replayed event that passed
/// the `since` filter.
pub proof fn lemma_replay_then_live_no_duplicates(
    st: CursorState,
    replayed: Seq<ReplayedEnvelope>,
    live: Seq<LiveEnvelope>,
)
    requires
        st.session is Some,
    ensures
        forall|i: int, j: int|
            0 <= i < replayed.len() && (#[trigger] replayed[i]).1 > st.since && 0 <= j < live_run(
                replay_run(st, replayed),
                live,
            ).1.len() ==> replayed[i].1 < #[trigger] live_run(replay_run(st, replayed), live).1[j],
{
    let mid = replay_run(st, replayed);
    lemma_replay_raises_watermark(st, replayed);
    lemma_session_live_strictly_increasing(mid, live);
}

/// The global stream never delivers a durable event twice either: a live
/// event it delivers after the replay lies above every replayed event of the
/// same session that passed the `since` filter.
pub proof fn lemma_global_replay_then_live_no_duplicates(
    st: CursorState,
    replayed: Seq<ReplayedEnvelope>,
    live: LiveEnvelope,
)
    requires
        st.session is None,
    ensures
        forall|i: int|
            0 <= i < replayed.len() && (#[trigger] replayed[i]).1 > st.since && replayed[i].0
                == live.0 && live_delivers(replay_run(st, replayed), live.0, live.1, live.2)
                ==> replayed[i].1 < live.1,
{
    lemma_replay_raises_watermark(st, replayed);
}

/// Indices of the entries of `seqs` that lie after `since`, in order.
pub open spec fn indices_after(seqs: Seq<u64>, since: u64) -> Seq<int>
    decreases seqs.len(),
{
    if seqs.len() == 0 {
        Seq::empty()
    } else {
        let rest = indices_after(seqs.drop_last(), since);
        if seqs.last() > since {
            rest.push(seqs.len() - 1)
        } else {
            rest
        }
    }
}

/// The replayed envelopes of a list-events request: those after `since`, in
/// order, at most `limit` of them (`limit` 0 means no limit).
pub open spec fn replay_indices(seqs: Seq<u64>, since: u64, limit: u32) -> Seq<int> {
    let all = indices_after(seqs, since);
    if limit == 0 || all.len() <= limit {
        all
    } else {
        all.take(limit as int)
    }
}

/// The highest of `start` and the sequence numbers of `seqs` at `idx`.
pub open spec fn max_seq_at(seqs: Seq<u64>, idx: Seq<int>, start: u64) -> u64
    decreases idx.len(),
{
    if idx.len() == 0 {
        start
    } else {
        max_u64(max_seq_at(seqs, idx.drop_last(), start), seqs[idx.last()])
    }
}

/// Whether the sequence numbers strictly increase, as a session's replay
/// yields them.
pub open spec fn strictly_ascending(seqs: Seq<u64>) -> bool {
    forall|i: int, j: int| 0 <= i < j < seqs.len() ==> #[trigger] seqs[i] < #[trigger] seqs[j]
}

proof fn lemma_indices_after_suffix(seqs: Seq<u64>, since: u64)
    requires
        strictly_ascending(seqs),
    ensures
        ({
            let s = indices_after(seqs, since);
            let p = seqs.len() - s.len();
            &&& 0 <= p <= seqs.len()
            &&& forall|k: int| 0 <= k < s.len() ==> #[trigger] s[k] == p + k
            &&& forall|i: int| 0 <= i < seqs.len() ==> (#[trigger] seqs[i] > since <==> i >= p)
        }),
    decreases seqs.len(),
{
    if seqs.len() > 0 {
        let q = seqs.drop_last();
        assert forall|i: int, j: int| 0 <= i < j < q.len() implies #[trigger] q[i] < #[trigger] q[j] by {
            assert(q[i] == seqs[i] && q[j] == seqs[j]);
        }
        lemma_indices_after_suffix(q, since);
        let r = indices_after(q, since);
        let pq = q.len() - r.len();
        let n = seqs.len() as int;
        if seqs.last() > since {
            let s = indices_after(seqs, since);
            assert(s == r.push(n - 1));
            assert forall|i: int| 0 <= i < n implies (#[trigger] seqs[i] > since <==> i >= pq) by {
                if i < n - 1 {
                    assert(seqs[i] == q[i]);
                }
            }
        } else {
            if r.len() > 0 {
                assert(q[pq] > since);
                assert(seqs[pq] < seqs[n - 1]);
            }
            assert forall|i: int| 0 <= i < n implies (#[trigger] seqs[i] > since <==> i >= n) by {
                if i < n - 1 {
                    assert(seqs[i] == q[i]);
                    assert(seqs[i] < seqs[n - 1]);
                }
            }
        }
    }
}

proof fn lemma_max_seq_at_last(seqs: Seq<u64>, idx: Seq<int>, start: u64)
    requires
        strictly_ascending(seqs),
        idx.len() > 0,
        forall|k: int| 0 <= k < idx.len() ==> 0 <= #[trigger] idx[k] < seqs.len() && seqs[idx[k]]
            > start,
        forall|a: int, b: int| 0 <= a < b < idx.len() ==> #[trigger] idx[a] < #[trigger] idx[b],
    ensures
        max_seq_at(seqs, idx, start) == seqs[idx.last()],
    decreases idx.len(),
{
    let q = idx.drop_last();
    if q.len() > 0 {
        assert forall|a: int, b: int| 0 <= a < b < q.len() implies #[trigger] q[a] < #[trigger] q[b] by {
            assert(q[a] == idx[a] && q[b] == idx[b]);
        }
        assert forall|k: int| 0 <= k < q.len() implies 0 <= #[trigger] q[k] < seqs.len() && seqs[q[k]]
            > start by {
            assert(q[k] == idx[k]);
        }
        lemma_max_seq_at_last(seqs, q, start);
        assert(idx[idx.len() - 2] < idx[idx.len() - 1]);
        assert(seqs[q.last()] < seqs[idx.last()]);
    } else {
        assert(max_seq_at(seqs, q, start) == start);
    }
}

/// Paging through a session's events skips and repeats nothing: when the
/// replay is in ascending sequence order, the events of one list-events
/// answer followed by all events after its `next_seq` are exactly all events
/// after the first watermark, and `next_seq` never falls below it.
pub proof fn lemma_list_events_continuation(seqs: Seq<u64>, since: u64, limit: u32)
    requires
        strictly_ascending(seqs),
    ensures
        ({
            let first = replay_indices(seqs, since, limit);
            let next = max_seq_at(seqs, first, since);
            &&& next >= since
            &&& first + replay_indices(seqs, next, 0) == replay_indices(seqs, since, 0)
        }),
{
    let all = indices_after(seqs, since);
    let first = replay_indices(seqs, since, limit);
    let next = max_seq_at(seqs, first, since);
    let n = seqs.len() as int;
    let p = n - all.len();
    lemma_indices_after_suffix(seqs, since);
    if first.len() == 0 {
        assert(next == since);
        assert(first + all =~= all);
    } else {
        let m = first.len() as int;
        assert forall|k: int| 0 <= k < m implies #[trigger] first[k] == p + k by {
            if !(limit == 0 || all.len() <= limit) {
                assert(first[k] == all[k]);
            }
        }
        assert forall|k: int| 0 <= k < m implies 0 <= #[trigger] first[k] < seqs.len()
            && seqs[first[k]] > since by {
            assert(first[k] == p + k);
        }
        assert forall|a: int, b: int| 0 <= a < b < m implies #[trigger] first[a]
            < #[trigger] first[b] by {
            assert(first[a] == p + a && first[b] == p + b);
        }
        lemma_max_seq_at_last(seqs, first, since);
        assert(first.last() == p + m - 1);
        assert(next == seqs[p + m - 1]);
        assert(seqs[p + m - 1] > since);
        lemma_indices_after_suffix(seqs, next);
        let rest = indices_after(seqs, next);
        let p2 = n - rest.len();
        assert(p2 == p + m) by {
            if p2 < p + m {
                if p2 < n {
                    assert(seqs[p2] > next);
                    if p2 < p + m - 1 {
                        assert(seqs[p2] < seqs[p + m - 1]);
                    }
                }
            } else if p2 > p + m {
                assert(seqs[p + m] > seqs[p + m - 1]);
            }
        }
        assert(first + rest =~= all);
    }
}

proof fn lemma_indices_after_complete(seqs: Seq<u64>, since: u64)
    ensures
        ({
            let r = indices_after(seqs, since);
            &&& forall|k: int| 0 <= k < r.len() ==> 0 <= #[trigger] r[k] < seqs.len() && seqs[r[k]] > since
            &&& forall|a: int, b: int| 0 <= a < b < r.len() ==> #[trigger] r[a] < #[trigger] r[b]
            &&& forall|j: int| 0 <= j < seqs.len() && #[trigger] seqs[j] > since ==> exists|k: int|
                0 <= k < r.len() && r[k] == j
        }),
    decreases seqs.len(),
{
    if seqs.len() > 0 {
        let q = seqs.drop_last();
        lemma_indices_after_complete(q, since);
        let rq = indices_after(q, since);
        let r = indices_after(seqs, since);
        let n = seqs.len() - 1;
        assert forall|k: int| 0 <= k < rq.len() implies seqs[#[trigger] rq[k]] == q[rq[k]] by {}
        assert forall|j: int| 0 <= j < seqs.len() && #[trigger] seqs[j] > since implies exists|k: int|
            0 <= k < r.len() && r[k] == j by {
            if j < n {
                assert(q[j] == seqs[j]);
                let k = choose|k: int| 0 <= k < rq.len() && rq[k] == j;
                assert(r[k] == j);
            } else {
                assert(r[r.len() - 1] == j);
            }
        }
    }
}

/// What a list-events answer selects, whatever the sequence numbers are:
/// positions of events after `since`, in replay order, never more than a
/// non-zero `limit`; and every event after `since` is selected unless the
/// limit is reached before it.
pub proof fn lemma_replay_selection(seqs: Seq<u64>, since: u64, limit: u32)
    ensures
        ({
            let r = replay_indices(seqs, since, limit);
            &&& forall|k: int| 0 <= k < r.len() ==> 0 <= #[trigger] r[k] < seqs.len() && seqs[r[k]] > since
            &&& forall|a: int, b: int| 0 <= a < b < r.len() ==> #[trigger] r[a] < #[trigger] r[b]
            &&& limit != 0 ==> r.len() <= limit
            &&& forall|j: int|
                0 <= j < seqs.len() && #[trigger] seqs[j] > since && !(limit != 0 && r.len() == limit
                    && j > r[r.len() - 1]) ==> exists|k: int| 0 <= k < r.len() && r[k] == j
        }),
{
    let all = indices_after(seqs, since);
    let r = replay_indices(seqs, since, limit);
    lemma_indices_after_complete(seqs, since);
    if !(limit == 0 || all.len() <= limit) {
        assert forall|k: int| 0 <= k < r.len() implies 0 <= #[trigger] r[k] < seqs.len() && seqs[r[k]]
            > since by {
            assert(r[k] == all[k]);
        }
        assert forall|a: int, b: int| 0 <= a < b < r.len() implies #[trigger] r[a] < #[trigger] r[b] by {
            assert(r[a] == all[a] && r[b] == all[b]);
        }
        assert forall|j: int|
            0 <= j < seqs.len() && #[trigger] seqs[j] > since && !(limit != 0 && r.len() == limit && j
                > r[r.len() - 1]) implies exists|k: int| 0 <= k < r.len() && r[k] == j by {
            let k = choose|k: int| 0 <= k < all.len() && all[k] == j;
            if k < limit {
                assert(r[k] == all[k]);
            } else {
                assert(r[r.len() - 1] == all[limit - 1]);
                if k > limit - 1 {
                    assert(all[limit - 1] < all[k]);
                }
            }
        }
    }
}

/// The next watermark of a list-events answer is the highest of `since` and
/// the selected sequence numbers: at least each of them, and equal to one.
pub proof fn lemma_next_seq_is_the_highest(seqs: Seq<u64>, idx: Seq<int>, since: u64)
    ensures
        max_seq_at(seqs, idx, since) >= since,
        forall|k: int| 0 <= k < idx.len() ==> max_seq_at(seqs, idx, since) >= seqs[#[trigger] idx[k]],
        max_seq_at(seqs, idx, since) == since || exists|k: int|
            0 <= k < idx.len() && max_seq_at(seqs, idx, since) == seqs[#[trigger] idx[k]],
    decreases idx.len(),
{
    if idx.len() > 0 {
        let q = idx.drop_last();
        lemma_next_seq_is_the_highest(seqs, q, since);
        assert forall|k: int| 0 <= k < idx.len() implies max_seq_at(seqs, idx, since) >= seqs[#[trigger] idx[k]] by {
            if k < q.len() {
                assert(idx[k] == q[k]);
            }
        }
        let m = max_seq_at(seqs, idx, since);
        if m != since && m != seqs[idx.last()] {
            let k = choose|k: int| 0 <= k < q.len() && max_seq_at(seqs, q, since) == seqs[#[trigger] q[k]];
            assert(idx[k] == q[k]);
        }
        if m == seqs[idx.last()] {
            assert(idx[idx.len() - 1] == idx.last());
        }
    }
}

/// The envelopes chosen by a list-events request and the next watermark.
#[derive(Debug)]
pub struct ReplaySelection {
    /// Positions of the chosen envelopes in the replayed list, in order.
    pub indices: Vec<usize>,
    /// The highest chosen sequence number, or `since_seq` when none is chosen.
    pub next_seq: u64,
}

proof fn lemma_indices_after_bounds(seqs: Seq<u64>, since: u64)
    ensures
        forall|k: int|
            0 <= k < indices_after(seqs, since).len() ==> 0 <= #[trigger] indices_after(
                seqs,
                since,
            )[k] < seqs.len() && seqs[indices_after(seqs, since)[k]] > since,
    decreases seqs.len(),
{
    if seqs.len() > 0 {
        lemma_indices_after_bounds(seqs.drop_last(), since);
        let rest = indices_after(seqs.drop_last(), since);
        assert forall|k: int| 0 <= k < rest.len() implies seqs[#[trigger] rest[k]]
            == seqs.drop_last()[rest[k]] by {}
    }
}

/// Choose the envelopes a list-events request answers with: those whose
/// sequence number lies after `since_seq`, in order, at most `limit` of them
/// (0 meaning all); `next_seq` is the highest chosen sequence number, or
/// `since_seq` when none is chosen.
pub fn select_replay(seqs: &Vec<u64>, since_seq: u64, limit: u32) -> (res: ReplaySelection)
    ensures
        res.indices@.len() == replay_indices(seqs@, since_seq, limit).len(),
        forall|k: int|
            0 <= k < res.indices@.len() ==> res.indices@[k] as int == #[trigger] replay_indices(
                seqs@,
                since_seq,
                limit,
            )[k],
        res.next_seq == max_seq_at(seqs@, replay_indices(seqs@, since_seq, limit), since_seq),
        forall|k: int|
            0 <= k < res.indices@.len() ==> #[trigger] res.indices@[k] < seqs@.len()
                && seqs@[res.indices@[k] as int] > since_seq,
{
    let n = seqs.len();
    let mut picked: Vec<usize> = Vec::new();
    let mut next = since_seq;
    let mut i: usize = 0;
    while i < n
        invariant
            n == seqs@.len(),
            i <= n,
            picked@.len() == replay_indices(seqs@.take(i as int), since_seq, limit).len(),
            forall|k: int|
                0 <= k < picked@.len() ==> picked@[k] as int == #[trigger] replay_indices(
                    seqs@.take(i as int),
                    since_seq,
                    limit,
                )[k],
            next == max_seq_at(
                seqs@,
                replay_indices(seqs@.take(i as int), since_seq, limit),
                since_seq,
            ),
            limit != 0 ==> picked@.len() <= limit,
        decreases n - i,
    {
        let ghost prev = seqs@.take(i as int);
        let ghost cur = seqs@.take(i + 1);
        proof {
            assert(cur.drop_last() =~= prev);
            assert(cur.last() == seqs@[i as int]);
            lemma_indices_after_bounds(prev, since_seq);
        }
        let room = limit == 0 || picked.len() < limit as usize;
        if seqs[i] > since_seq && room {
            picked.push(i);
            if seqs[i] > next {
                next = seqs[i];
            }
            proof {
                let r = replay_indices(prev, since_seq, limit);
                let all = indices_after(cur, since_seq);
                assert(all == indices_after(prev, since_seq).push(i as int));
                assert(replay_indices(cur, since_seq, limit) =~= r.push(i as int));
                assert forall|k: int| 0 <= k < r.len() implies 0 <= #[trigger] r[k]
                    < prev.len() by {
                    if !(limit == 0 || indices_after(prev, since_seq).len() <= limit) {
                        assert(r[k] == indices_after(prev, since_seq)[k]);
                    }
                }
                assert(r.push(i as int).drop_last() =~= r);
            }
        } else {
            proof {
                let r = replay_indices(prev, since_seq, limit);
                if seqs[i as int] > since_seq {
                    let all_prev = indices_after(prev, since_seq);
                    assert(indices_after(cur, since_seq) == all_prev.push(i as int));
                    assert(all_prev.len() >= limit);
                    assert(all_prev.push(i as int).take(limit as int) =~= all_prev.take(
                        limit as int,
                    ));
                    if all_prev.len() == limit {
                        assert(all_prev.take(limit as int) =~= all_prev);
                    }
                } else {
                    assert(indices_after(cur, since_seq) == indices_after(prev, since_seq));
                }
                assert(replay_indices(cur, since_seq, limit) =~= r);
            }
        }
        i = i + 1;
    }
    proof {
        assert(seqs@.take(n as int) =~= seqs@);
        let r = replay_indices(seqs@, since_seq, limit);
        lemma_indices_after_bounds(seqs@, since_seq);
        assert forall|k: int| 0 <= k < picked@.len() implies #[trigger] picked@[k] < seqs@.len()
            && seqs@[picked@[k] as int] > since_seq by {
            assert(picked@[k] as int == r[k]);
            if !(limit == 0 || indices_after(seqs@, since_seq).len() <= limit) {
                assert(r[k] == indices_after(seqs@, since_seq)[k]);
            }
        }
    }
    ReplaySelection { indices: picked, next_seq: next }
}

/// The list-events answer for a session whose replay holds envelopes with
/// sequence numbers `seqs`: an unknown (empty) session is not found, otherwise
/// the replay selection.
pub fn list_events(session: &str, seqs: &Vec<u64>, since_seq: u64, limit: u32) -> (res: Result<
    ReplaySelection,
    V1Error,
>)
    ensures
        seqs@.len() == 0 ==> (res matches Err(e) && e.code == Code::SessionNotFound
            && e.message@ == "session not found: "@ + session@),
        seqs@.len() > 0 ==> (res matches Ok(sel) && sel.indices@.len() == replay_indices(
            seqs@,
            since_seq,
            limit,
        ).len() && (forall|k: int|
            0 <= k < sel.indices@.len() ==> sel.indices@[k] as int == #[trigger] replay_indices(
                seqs@,
                since_seq,
                limit,
            )[k]) && sel.next_seq == max_seq_at(
            seqs@,
            replay_indices(seqs@, since_seq, limit),
            since_seq,
        )),
{
    if seqs.len() == 0 {
        return Err(V1Error::session_not_found(session));
    }
    Ok(select_replay(seqs, since_seq, limit))
}

} // verus!
