//! The streaming bridge on concrete byte streams: framing, event
//! classification, chunking invariance, and cancellation.

use ragkit_bridge::json::token_text;
use ragkit_bridge::session::{DonePayload, Notice, StreamOutcome, StreamSession};
use ragkit_bridge::sse::parse_frame;

fn feed_all(session: &mut StreamSession, chunks: &[&[u8]]) -> Vec<Notice> {
    let mut notices = Vec::new();
    for chunk in chunks {
        if session.outcome().is_some() {
            break;
        }
        notices.extend(session.feed(chunk));
    }
    notices
}

fn chunk_texts(notices: &[Notice]) -> Vec<String> {
    notices
        .iter()
        .filter_map(|n| match n {
            Notice::Chunk(s) => Some(s.clone()),
            Notice::Done(_) => None,
        })
        .collect()
}

fn done_payloads(notices: &[Notice]) -> Vec<&DonePayload> {
    notices
        .iter()
        .filter_map(|n| match n {
            Notice::Chunk(_) => None,
            Notice::Done(p) => Some(p),
        })
        .collect()
}

const DIALOGUE: &[u8] = b"event: token\ndata: {\"content\":\"Hi\"}\n\nevent: done\ndata: {}\n\n";

#[test]
fn token_then_done_delivered_once() {
    let mut s = StreamSession::new();
    let notices = feed_all(&mut s, &[DIALOGUE]);
    assert_eq!(chunk_texts(&notices), vec!["Hi".to_string()]);
    let dones = done_payloads(&notices);
    assert_eq!(dones.len(), 1);
    match dones[0] {
        DonePayload::Data(p) => assert_eq!(p, b"{}"),
        other => panic!("wrong terminal payload kind: stopped={}", matches!(other, DonePayload::Stopped)),
    }
    assert_eq!(s.outcome(), Some(StreamOutcome::Completed));
}

#[test]
fn delivery_is_independent_of_chunking() {
    // the whole stream at once
    let mut whole = StreamSession::new();
    let expected = feed_all(&mut whole, &[DIALOGUE]);
    let expected_outcome = whole.outcome();

    // split at every possible single boundary
    for cut in 0..DIALOGUE.len() {
        let mut s = StreamSession::new();
        let got = feed_all(&mut s, &[&DIALOGUE[..cut], &DIALOGUE[cut..]]);
        assert_eq!(chunk_texts(&got), chunk_texts(&expected), "cut at {}", cut);
        assert_eq!(got.len(), expected.len(), "cut at {}", cut);
        assert_eq!(s.outcome(), expected_outcome, "cut at {}", cut);
    }

    // one byte at a time
    let singles: Vec<&[u8]> = DIALOGUE.chunks(1).collect();
    let mut s = StreamSession::new();
    let got = feed_all(&mut s, &singles);
    assert_eq!(chunk_texts(&got), vec!["Hi".to_string()]);
    assert_eq!(got.len(), expected.len());
    assert_eq!(s.outcome(), Some(StreamOutcome::Completed));
}

#[test]
fn error_event_yields_one_terminal_and_no_chunks() {
    let mut s = StreamSession::new();
    let notices = feed_all(&mut s, &[b"event: error\ndata: {\"error\":\"boom\"}\n\n"]);
    assert!(chunk_texts(&notices).is_empty());
    let dones = done_payloads(&notices);
    assert_eq!(dones.len(), 1);
    match dones[0] {
        DonePayload::Error(p) => assert_eq!(p, b"{\"error\":\"boom\"}"),
        other => panic!("wrong terminal payload kind: stopped={}", matches!(other, DonePayload::Stopped)),
    }
    assert_eq!(s.outcome(), Some(StreamOutcome::ErrorReported));
}

#[test]
fn stop_before_terminal_cancels_and_does_not_poison_the_next_stream() {
    let mut s = StreamSession::new();
    let first = s.feed(b"event: token\ndata: {\"content\":\"partial\"}\n\n");
    assert_eq!(chunk_texts(&first), vec!["partial".to_string()]);
    s.request_stop();
    // the next chunk boundary honours the stop; the chunk is not read
    let notices = s.feed(b"event: token\ndata: {\"content\":\"late\"}\n\n");
    assert_eq!(notices.len(), 1);
    assert!(matches!(&notices[0], Notice::Done(DonePayload::Stopped)));
    assert_eq!(s.outcome(), Some(StreamOutcome::Cancelled));
    assert!(!s.stop_requested());

    // a subsequently started stream is not pre-cancelled
    let mut next = StreamSession::new();
    assert!(!next.stop_requested());
    let notices = feed_all(&mut next, &[DIALOGUE]);
    assert_eq!(chunk_texts(&notices), vec!["Hi".to_string()]);
    assert_eq!(next.outcome(), Some(StreamOutcome::Completed));
}

#[test]
fn stop_at_stream_end_reports_cancellation_once() {
    let mut s = StreamSession::new();
    s.request_stop();
    s.request_stop(); // idempotent
    let r = s.finish();
    assert!(matches!(r, Some(Notice::Done(DonePayload::Stopped))));
    assert_eq!(s.outcome(), Some(StreamOutcome::Cancelled));
}

#[test]
fn silent_close_ends_without_emission() {
    let mut s = StreamSession::new();
    let notices = s.feed(b"event: token\ndata: {\"content\":\"only\"}\n\n");
    assert_eq!(chunk_texts(&notices), vec!["only".to_string()]);
    let r = s.finish();
    assert!(r.is_none());
    assert_eq!(s.outcome(), Some(StreamOutcome::EndedWithoutSignal));
}

#[test]
fn empty_payload_frames_are_skipped() {
    let mut s = StreamSession::new();
    // a `done` with no data must not end the session
    let notices = s.feed(b"event: done\n\nevent: token\ndata: {\"content\":\"after\"}\n\n");
    assert_eq!(chunk_texts(&notices), vec!["after".to_string()]);
    assert!(s.outcome().is_none());
}

#[test]
fn unknown_event_names_are_ignored() {
    let mut s = StreamSession::new();
    let notices = s.feed(b"event: ping\ndata: {}\n\nevent: done\ndata: {\"n\":1}\n\n");
    assert!(chunk_texts(&notices).is_empty());
    let dones = done_payloads(&notices);
    assert_eq!(dones.len(), 1);
    match dones[0] {
        DonePayload::Data(p) => assert_eq!(p, b"{\"n\":1}"),
        _ => panic!("wrong terminal payload kind"),
    }
}

#[test]
fn tokens_without_content_are_not_delivered() {
    let mut s = StreamSession::new();
    let notices = s.feed(b"event: token\ndata: {\"other\":1}\n\nevent: token\ndata: {\"content\":\"\"}\n\n");
    assert!(chunk_texts(&notices).is_empty());
    assert!(s.outcome().is_none());
}

#[test]
fn unparsable_token_payload_yields_no_delivery() {
    let mut s = StreamSession::new();
    let notices = s.feed(b"event: token\ndata: plain words\n\n");
    assert!(notices.is_empty());
    assert!(s.outcome().is_none());
}

#[test]
fn frames_keep_order_within_a_session() {
    let mut s = StreamSession::new();
    let notices = s.feed(
        b"event: token\ndata: {\"content\":\"a\"}\n\nevent: token\ndata: {\"content\":\"b\"}\n\nevent: token\ndata: {\"content\":\"c\"}\n\n",
    );
    assert_eq!(chunk_texts(&notices), vec!["a".to_string(), "b".to_string(), "c".to_string()]);
    assert!(s.outcome().is_none());
}

#[test]
fn frame_fields_parse() {
    let (name, payload) = parse_frame(b"event: token\ndata: {\"content\":\"Hi\"}");
    assert_eq!(name, b"token");
    assert_eq!(payload, b"{\"content\":\"Hi\"}");

    // no event line: the default name stands
    let (name, payload) = parse_frame(b"data: x");
    assert_eq!(name, b"message");
    assert_eq!(payload, b"x");

    // the last event line wins; other lines are ignored
    let (name, _) = parse_frame(b"event: a\n: comment\nevent: b\ndata: x");
    assert_eq!(name, b"b");

    // carriage returns are stripped, values trimmed
    let (name, payload) = parse_frame(b"event: done\r\ndata:  {}  \r");
    assert_eq!(name, b"done");
    assert_eq!(payload, b"{}");

    // multi-line data is rejoined with a line feed
    let (_, payload) = parse_frame(b"data: first\ndata: second");
    assert_eq!(payload, b"first\nsecond");
}

#[test]
fn token_text_extraction() {
    assert_eq!(token_text(b"{\"content\":\"Hi\"}"), "Hi");
    assert_eq!(token_text(b"{\"content\":42}"), "");
    assert_eq!(token_text(b"{}"), "");
    assert_eq!(token_text(b"not json"), "");
}

#[test]
fn delimiter_split_inside_the_delimiter_itself() {
    // the two delimiter bytes arrive in different chunks
    let mut s = StreamSession::new();
    let mut notices = s.feed(b"event: done\ndata: {}\n");
    assert!(notices.is_empty());
    assert!(s.outcome().is_none());
    notices.extend(s.feed(b"\n"));
    assert_eq!(notices.len(), 1);
    assert!(matches!(&notices[0], Notice::Done(DonePayload::Data(_))));
    assert_eq!(s.outcome(), Some(StreamOutcome::Completed));
}
