use hya_server::events::{list_events, select_replay, FrameCursor};
use hya_server::error::Code;

#[test]
fn replay_selection_filters_after_since_and_honors_the_limit() {
    let seqs = vec![1, 2, 3, 4, 5];
    let all = select_replay(&seqs, 2, 0);
    assert_eq!(all.indices, vec![2, 3, 4]);
    assert_eq!(all.next_seq, 5);
    let two = select_replay(&seqs, 2, 2);
    assert_eq!(two.indices, vec![2, 3]);
    assert_eq!(two.next_seq, 4);
    let none = select_replay(&seqs, 9, 0);
    assert!(none.indices.is_empty());
    assert_eq!(none.next_seq, 9);
    let unordered = select_replay(&vec![7, 3, 9, 1], 2, 3);
    assert_eq!(unordered.indices, vec![0, 1, 2]);
    assert_eq!(unordered.next_seq, 9);
}

#[test]
fn an_empty_replay_is_an_unknown_session() {
    let err = list_events("hysec_x", &Vec::new(), 0, 0).unwrap_err();
    assert_eq!(err.code, Code::SessionNotFound);
    assert_eq!(err.message, "session not found: hysec_x");
    let sel = list_events("hysec_x", &vec![4, 8], 4, 0).unwrap();
    assert_eq!(sel.indices, vec![1]);
    assert_eq!(sel.next_seq, 8);
}

#[test]
fn session_stream_suppresses_events_seen_in_replay() {
    let mut c = FrameCursor::new(Some("s1".to_string()), 2);
    assert!(!c.replay(Some("s1"), 1));
    assert!(c.replay(Some("s1"), 3));
    assert!(c.replay(Some("s1"), 5));
    assert_eq!(c.resync_seq(), 5);
    // live duplicates of replayed events are dropped
    assert!(!c.live(Some("s1"), 5, true));
    assert!(!c.live(Some("s1"), 4, true));
    // other sessions are dropped and do not move the watermark
    assert!(!c.live(Some("s2"), 9, true));
    assert!(!c.live(None, 9, true));
    assert_eq!(c.resync_seq(), 5);
    // a new event passes and moves the watermark, even without a frame
    assert!(c.live(Some("s1"), 6, true));
    assert!(!c.live(Some("s1"), 7, false));
    assert_eq!(c.resync_seq(), 7);
    assert!(!c.live(Some("s1"), 7, true));
    assert!(c.live(Some("s1"), 8, true));
}

#[test]
fn global_stream_replays_first_and_drops_live_duplicates_per_session() {
    let mut c = FrameCursor::new(None, 10);
    assert!(!c.replay(Some("a"), 9));
    assert!(c.replay(Some("a"), 12));
    assert!(c.replay(Some("b"), 11));
    assert!(c.replay(None, 15));
    assert!(c.replay(Some("a"), 14));
    // events already replayed in their session are not delivered again
    assert!(!c.live(Some("a"), 14, true));
    assert!(!c.live(Some("a"), 13, true));
    assert!(c.live(Some("a"), 15, true));
    assert!(!c.live(Some("b"), 11, true));
    assert!(c.live(Some("b"), 12, true));
    assert!(!c.live(None, 15, true));
    assert!(c.live(None, 16, true));
    // a session with nothing replayed is filtered by since alone
    assert!(c.live(Some("c"), 11, true));
    assert!(!c.live(Some("c"), 10, true));
    assert_eq!(c.resync_seq(), 10);
}

#[test]
fn global_stream_filters_by_since_only() {
    let mut c = FrameCursor::new(None, 10);
    assert!(!c.live(Some("a"), 10, true));
    assert!(c.live(Some("a"), 12, true));
    assert!(c.live(Some("b"), 11, true));
    assert!(c.live(None, 12, true));
    assert!(!c.live(None, 13, false));
    assert_eq!(c.resync_seq(), 10);
}

#[test]
fn passing_next_seq_back_skips_and_repeats_nothing() {
    let seqs = vec![3, 5, 8, 9, 12, 20];
    let whole = select_replay(&seqs, 4, 0).indices;
    for limit in 0..8 {
        let first = list_events("s", &seqs, 4, limit).unwrap();
        assert!(first.next_seq >= 4);
        let rest = list_events("s", &seqs, first.next_seq, 0).unwrap();
        let mut joined = first.indices.clone();
        joined.extend(rest.indices);
        assert_eq!(joined, whole);
    }
}
