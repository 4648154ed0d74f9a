//! The per-invocation streaming session: decodes inbound chunks into
//! typed deliveries for one subscriber, with cooperative
//! cancellation.
//!
//! Each inbound chunk is appended to the accumulation buffer, every
//! complete frame is drained and classified, and the session ends at
//! the first terminal event, at a stop request, or when the stream
//! closes. The stop flag is checked once per chunk — never mid-frame
//! — and is consumed by the cancellation it causes, so a session
//! started afterwards is not pre-cancelled.

use vstd::prelude::*;
use crate::json::{spec_token_text, token_text};
use crate::sse::{
    find_delim, find_delim_bytes, lemma_find_delim_char, parse_frame, spec_event_name,
    spec_payload, split_frames,
};

verus! {

/// The terminal outcome of one session.
#[derive(Clone, Copy, PartialEq, Eq, Structural, Debug)]
pub enum StreamOutcome {
    /// A `done` event arrived.
    Completed,
    /// An `error` event arrived.
    ErrorReported,
    /// A stop request was honoured at a chunk boundary.
    Cancelled,
    /// The stream closed with no terminal event seen.
    EndedWithoutSignal,
}

/// What the terminal notification carries.
pub enum DonePayload {
    /// A `done` event's payload, to pass through as structured data.
    Data(Vec<u8>),
    /// An `error` event's payload: structured data, or raw error
    /// text for the caller to wrap.
    Error(Vec<u8>),
    /// The cancellation marker.
    Stopped,
}

/// The mathematical form of a terminal payload.
pub enum DoneView {
    Data(Seq<u8>),
    Error(Seq<u8>),
    Stopped,
}

impl View for DonePayload {
    type V = DoneView;

    open spec fn view(&self) -> DoneView {
        match self {
            DonePayload::Data(b) => DoneView::Data(b@),
            DonePayload::Error(b) => DoneView::Error(b@),
            DonePayload::Stopped => DoneView::Stopped,
        }
    }
}

/// One delivery to the subscriber: a text chunk, or the terminal
/// notification — exactly one of the latter per session.
pub enum Notice {
    Chunk(String),
    Done(DonePayload),
}

/// The mathematical form of a delivery.
pub enum NoticeView {
    Chunk(Seq<char>),
    Done(DoneView),
}

impl View for Notice {
    type V = NoticeView;

    open spec fn view(&self) -> NoticeView {
        match self {
            Notice::Chunk(s) => NoticeView::Chunk(s@),
            Notice::Done(p) => NoticeView::Done(p@),
        }
    }
}

/// The `token` event name as bytes.
pub open spec fn token_name() -> Seq<u8> {
    seq![116u8, 111u8, 107u8, 101u8, 110u8]
}

/// The `done` event name as bytes.
pub open spec fn done_name() -> Seq<u8> {
    seq![100u8, 111u8, 110u8, 101u8]
}

/// The `error` event name as bytes.
pub open spec fn error_name() -> Seq<u8> {
    seq![101u8, 114u8, 114u8, 111u8, 114u8]
}

/// The deliveries one frame causes and, when the frame is terminal,
/// its outcome. A frame with an empty reconstructed payload is
/// skipped without classification; a `token` frame delivers its
/// non-empty content; `done` and `error` frames end the session;
/// frames with other names are ignored.
pub open spec fn frame_step(frame: Seq<u8>) -> (Seq<NoticeView>, Option<StreamOutcome>) {
    let name = spec_event_name(frame);
    let payload = spec_payload(frame);
    if payload.len() == 0 {
        (Seq::empty(), None)
    } else if name == token_name() {
        let t = spec_token_text(payload);
        if t.len() == 0 {
            (Seq::empty(), None)
        } else {
            (seq![NoticeView::Chunk(t)], None)
        }
    } else if name == done_name() {
        (seq![NoticeView::Done(DoneView::Data(payload))], Some(StreamOutcome::Completed))
    } else if name == error_name() {
        (seq![NoticeView::Done(DoneView::Error(payload))], Some(StreamOutcome::ErrorReported))
    } else {
        (Seq::empty(), None)
    }
}

/// Frames processed in order, stopping at the first terminal frame;
/// frames after it are not read.
pub open spec fn run_frames(frames: Seq<Seq<u8>>) -> (Seq<NoticeView>, Option<StreamOutcome>)
    decreases frames.len(),
{
    if frames.len() == 0 {
        (Seq::empty(), None)
    } else {
        let head = frame_step(frames[0]);
        if head.1 is Some {
            head
        } else {
            let rest = run_frames(frames.skip(1));
            (head.0 + rest.0, rest.1)
        }
    }
}

/// Processing more frames after a run without a terminal continues
/// the run.
pub proof fn lemma_run_frames_append(f1: Seq<Seq<u8>>, f2: Seq<Seq<u8>>)
    requires
        run_frames(f1).1 is None,
    ensures
        run_frames(f1 + f2).0 == run_frames(f1).0 + run_frames(f2).0,
        run_frames(f1 + f2).1 == run_frames(f2).1,
    decreases f1.len(),
{
    if f1.len() == 0 {
        assert(f1 + f2 =~= f2);
        assert(run_frames(f1).0 + run_frames(f2).0 =~= run_frames(f2).0);
    } else {
        assert((f1 + f2)[0] == f1[0]);
        assert((f1 + f2).skip(1) =~= f1.skip(1) + f2);
        lemma_run_frames_append(f1.skip(1), f2);
        assert(frame_step(f1[0]).0 + (run_frames(f1.skip(1)).0 + run_frames(f2).0) =~= (frame_step(
            f1[0],
        ).0 + run_frames(f1.skip(1)).0) + run_frames(f2).0);
    }
}

/// Frames after a terminal frame change nothing.
pub proof fn lemma_run_frames_terminal(f1: Seq<Seq<u8>>, f2: Seq<Seq<u8>>)
    requires
        run_frames(f1).1 is Some,
    ensures
        run_frames(f1 + f2).0 == run_frames(f1).0,
        run_frames(f1 + f2).1 == run_frames(f1).1,
    decreases f1.len(),
{
    assert(f1.len() > 0);
    assert((f1 + f2)[0] == f1[0]);
    assert((f1 + f2).skip(1) =~= f1.skip(1) + f2);
    if frame_step(f1[0]).1 is Some {
    } else {
        lemma_run_frames_terminal(f1.skip(1), f2);
        assert(frame_step(f1[0]).0 + run_frames(f1.skip(1) + f2).0 =~= frame_step(f1[0]).0
            + run_frames(f1.skip(1)).0);
    }
}

/// The `token` event name as bytes.
fn token_name_bytes() -> (r: Vec<u8>)
    ensures
        r@ == token_name(),
{
    let mut r: Vec<u8> = Vec::new();
    r.push(116);
    r.push(111);
    r.push(107);
    r.push(101);
    r.push(110);
    proof {
        assert(r@ =~= token_name());
    }
    r
}

/// The `done` event name as bytes.
fn done_name_bytes() -> (r: Vec<u8>)
    ensures
        r@ == done_name(),
{
    let mut r: Vec<u8> = Vec::new();
    r.push(100);
    r.push(111);
    r.push(110);
    r.push(101);
    proof {
        assert(r@ =~= done_name());
    }
    r
}

/// The `error` event name as bytes.
fn error_name_bytes() -> (r: Vec<u8>)
    ensures
        r@ == error_name(),
{
    let mut r: Vec<u8> = Vec::new();
    r.push(101);
    r.push(114);
    r.push(114);
    r.push(111);
    r.push(114);
    proof {
        assert(r@ =~= error_name());
    }
    r
}

/// Classifies one complete frame into its deliveries and, when the
/// frame is terminal, its outcome.
pub fn classify_frame(frame: &[u8]) -> (r: (Vec<Notice>, Option<StreamOutcome>))
    ensures
        r.0@.map_values(|n: Notice| n@) == frame_step(frame@).0,
        r.1 == frame_step(frame@).1,
{
    let (name, payload) = parse_frame(frame);
    let mut notices: Vec<Notice> = Vec::new();
    if payload.len() == 0 {
        proof {
            assert(notices@.map_values(|n: Notice| n@) =~= frame_step(frame@).0);
        }
        return (notices, None);
    }
    if crate::text::bytes_eq(name.as_slice(), token_name_bytes().as_slice()) {
        let t = token_text(payload.as_slice());
        if t.as_str().is_empty() {
            proof {
                assert(notices@.map_values(|n: Notice| n@) =~= frame_step(frame@).0);
            }
            (notices, None)
        } else {
            let ghost tv = t@;
            notices.push(Notice::Chunk(t));
            proof {
                assert(notices@.map_values(|n: Notice| n@) =~= seq![NoticeView::Chunk(tv)]);
            }
            (notices, None)
        }
    } else if crate::text::bytes_eq(name.as_slice(), done_name_bytes().as_slice()) {
        let ghost pv = payload@;
        notices.push(Notice::Done(DonePayload::Data(payload)));
        proof {
            assert(notices@.map_values(|n: Notice| n@) =~= seq![
                NoticeView::Done(DoneView::Data(pv)),
            ]);
        }
        (notices, Some(StreamOutcome::Completed))
    } else if crate::text::bytes_eq(name.as_slice(), error_name_bytes().as_slice()) {
        let ghost pv = payload@;
        notices.push(Notice::Done(DonePayload::Error(payload)));
        proof {
            assert(notices@.map_values(|n: Notice| n@) =~= seq![
                NoticeView::Done(DoneView::Error(pv)),
            ]);
        }
        (notices, Some(StreamOutcome::ErrorReported))
    } else {
        proof {
            assert(notices@.map_values(|n: Notice| n@) =~= frame_step(frame@).0);
        }
        (notices, None)
    }
}

/// One streaming session: the accumulation buffer, the cancellation
/// flag, and the terminal outcome once one is reached.
pub struct StreamSession {
    pub buffer: Vec<u8>,
    pub cancel: bool,
    pub outcome: Option<StreamOutcome>,
}

impl StreamSession {
    /// A session is active until a terminal outcome is recorded.
    pub open spec fn is_active(self) -> bool {
        self.outcome is None
    }

    /// While the session is active, the accumulation buffer holds
    /// only bytes after the last complete frame delimiter: frames
    /// are drained eagerly.
    pub open spec fn inv(self) -> bool {
        self.outcome is None ==> find_delim(self.buffer@) is None
    }

    /// A fresh session: empty buffer, not cancelled, active.
    pub fn new() -> (s: StreamSession)
        ensures
            s.buffer@.len() == 0,
            !s.cancel,
            s.is_active(),
            s.inv(),
    {
        let s = StreamSession { buffer: Vec::new(), cancel: false, outcome: None };
        proof {
            crate::sse::lemma_find_delim_none(s.buffer@);
        }
        s
    }

    /// Requests cancellation: idempotent, fire-and-forget. The flag
    /// is honoured at the next chunk boundary, never mid-frame.
    pub fn request_stop(&mut self)
        ensures
            final(self).cancel,
            final(self).buffer == old(self).buffer,
            final(self).outcome == old(self).outcome,
    {
        self.cancel = true;
    }

    /// The terminal outcome, once one is reached.
    pub fn outcome(&self) -> (r: Option<StreamOutcome>)
        ensures
            r == self.outcome,
    {
        self.outcome
    }

    /// Whether a stop request is pending.
    pub fn stop_requested(&self) -> (r: bool)
        ensures
            r == self.cancel,
    {
        self.cancel
    }

    /// Accepts one inbound chunk. With a stop pending, the chunk is
    /// discarded: the one delivery is the cancellation notification,
    /// the outcome is `Cancelled`, and the flag is reset. Otherwise
    /// the chunk joins the buffer, every complete frame is drained
    /// and classified in order, and the session either stays active
    /// with the residue buffered or ends at the first terminal
    /// frame, further frames unread.
    pub fn feed(&mut self, chunk: &[u8]) -> (notices: Vec<Notice>)
        requires
            old(self).inv(),
            old(self).is_active(),
        ensures
            final(self).inv(),
            old(self).cancel ==> ({
                &&& notices@.map_values(|n: Notice| n@) == seq![
                    NoticeView::Done(DoneView::Stopped),
                ]
                &&& final(self).outcome == Some(StreamOutcome::Cancelled)
                &&& !final(self).cancel
            }),
            !old(self).cancel ==> ({
                let results = run_frames(split_frames(old(self).buffer@ + chunk@).0);
                &&& notices@.map_values(|n: Notice| n@) == results.0
                &&& final(self).outcome == results.1
                &&& (results.1 is None ==> final(self).buffer@ == split_frames(
                    old(self).buffer@ + chunk@,
                ).1)
                &&& !final(self).cancel
            }),
    {
        if self.cancel {
            self.cancel = false;
            self.outcome = Some(StreamOutcome::Cancelled);
            let mut notices: Vec<Notice> = Vec::new();
            notices.push(Notice::Done(DonePayload::Stopped));
            proof {
                assert(notices@.map_values(|n: Notice| n@) =~= seq![
                    NoticeView::Done(DoneView::Stopped),
                ]);
            }
            return notices;
        }
        crate::text::push_all(&mut self.buffer, chunk);
        let ghost combined = old(self).buffer@ + chunk@;
        let mut notices: Vec<Notice> = Vec::new();
        let ghost mut done_frames: Seq<Seq<u8>> = Seq::empty();
        let mut scanning = true;
        proof {
            assert(done_frames + split_frames(self.buffer@).0 =~= split_frames(self.buffer@).0);
        }
        while scanning
            invariant
                combined == old(self).buffer@ + chunk@,
                scanning ==> ({
                    &&& self.outcome is None
                    &&& !self.cancel
                    &&& split_frames(combined).0 == done_frames + split_frames(self.buffer@).0
                    &&& split_frames(combined).1 == split_frames(self.buffer@).1
                    &&& run_frames(done_frames).1 is None
                    &&& notices@.map_values(|n: Notice| n@) == run_frames(done_frames).0
                }),
                !scanning ==> ({
                    let results = run_frames(split_frames(combined).0);
                    &&& notices@.map_values(|n: Notice| n@) == results.0
                    &&& self.outcome == results.1
                    &&& (results.1 is None ==> self.buffer@ == split_frames(combined).1)
                    &&& !self.cancel
                    &&& self.inv()
                }),
            decreases self.buffer@.len() + (if scanning {
                1int
            } else {
                0int
            }),
        {
            match find_delim_bytes(self.buffer.as_slice()) {
                None => {
                    proof {
                        assert(split_frames(self.buffer@).0 =~= Seq::<Seq<u8>>::empty());
                        assert(done_frames + split_frames(self.buffer@).0 =~= done_frames);
                        assert(split_frames(combined).1 == self.buffer@);
                    }
                    scanning = false;
                },
                Some(k) => {
                    let blen = self.buffer.len();
                    proof {
                        lemma_find_delim_char(self.buffer@);
                        assert(k + 2 <= blen);
                    }
                    let frame = crate::text::subrange_vec(self.buffer.as_slice(), 0, k);
                    let rest = crate::text::subrange_vec(self.buffer.as_slice(), k + 2, blen);
                    let ghost old_buf = self.buffer@;
                    proof {
                        assert(frame@ == old_buf.take(k as int));
                        assert(rest@ =~= old_buf.skip(k as int + 2));
                        assert(split_frames(old_buf).0 == seq![frame@] + split_frames(rest@).0);
                        assert(split_frames(old_buf).1 == split_frames(rest@).1);
                    }
                    self.buffer = rest;
                    let (mut emits, term) = classify_frame(frame.as_slice());
                    let ghost emitted = emits@.map_values(|n: Notice| n@);
                    let ghost notices_before = notices@.map_values(|n: Notice| n@);
                    notices.append(&mut emits);
                    proof {
                        assert(notices@.map_values(|n: Notice| n@) =~= notices_before + emitted);
                        // one frame alone runs as its own step
                        assert(seq![frame@].skip(1) =~= Seq::<Seq<u8>>::empty());
                        assert(run_frames(seq![frame@].skip(1)).0 =~= Seq::<NoticeView>::empty());
                        assert(run_frames(seq![frame@].skip(1)).1 is None);
                        assert(run_frames(seq![frame@]).0 =~= frame_step(frame@).0);
                        assert(run_frames(seq![frame@]).1 == frame_step(frame@).1);
                    }
                    match term {
                        None => {
                            proof {
                                lemma_run_frames_append(done_frames, seq![frame@]);
                                done_frames = done_frames + seq![frame@];
                                assert(done_frames + split_frames(self.buffer@).0 =~= split_frames(
                                    combined,
                                ).0);
                            }
                        },
                        Some(o) => {
                            self.outcome = Some(o);
                            scanning = false;
                            proof {
                                let tail = seq![frame@] + split_frames(rest@).0;
                                lemma_run_frames_append(done_frames, tail);
                                assert(done_frames + tail =~= split_frames(combined).0);
                                assert(tail[0] == frame@);
                                assert(tail.skip(1) =~= split_frames(rest@).0);
                                assert(run_frames(tail).0 == frame_step(frame@).0);
                                assert(run_frames(tail).1 == frame_step(frame@).1);
                            }
                        },
                    }
                },
            }
        }
        notices
    }

    /// Ends the session when the stream closes without a terminal
    /// event: with a stop pending this is a cancellation — one
    /// notification, flag reset; otherwise the session ends silently
    /// with outcome `EndedWithoutSignal` and no delivery.
    pub fn finish(&mut self) -> (r: Option<Notice>)
        requires
            old(self).is_active(),
        ensures
            final(self).inv(),
            old(self).cancel ==> ({
                &&& r matches Some(n) && n@ == NoticeView::Done(DoneView::Stopped)
                &&& final(self).outcome == Some(StreamOutcome::Cancelled)
                &&& !final(self).cancel
            }),
            !old(self).cancel ==> ({
                &&& r is None
                &&& final(self).outcome == Some(StreamOutcome::EndedWithoutSignal)
                &&& !final(self).cancel
            }),
    {
        if self.cancel {
            self.cancel = false;
            self.outcome = Some(StreamOutcome::Cancelled);
            Some(Notice::Done(DonePayload::Stopped))
        } else {
            self.outcome = Some(StreamOutcome::EndedWithoutSignal);
            None
        }
    }
}

/// The session state a spec-level feed reaches: the buffered
/// residue, every delivery so far, and the outcome once terminal.
/// A chunk fed after the terminal outcome is ignored.
pub open spec fn spec_feed(
    st: (Seq<u8>, Seq<NoticeView>, Option<StreamOutcome>),
    chunk: Seq<u8>,
) -> (Seq<u8>, Seq<NoticeView>, Option<StreamOutcome>) {
    if st.2 is Some {
        st
    } else {
        let split = split_frames(st.0 + chunk);
        let run = run_frames(split.0);
        (split.1, st.1 + run.0, run.1)
    }
}

/// The session state after feeding the chunks in order from `st`.
pub open spec fn spec_feed_from(
    st: (Seq<u8>, Seq<NoticeView>, Option<StreamOutcome>),
    chunks: Seq<Seq<u8>>,
) -> (Seq<u8>, Seq<NoticeView>, Option<StreamOutcome>)
    decreases chunks.len(),
{
    if chunks.len() == 0 {
        st
    } else {
        spec_feed_from(spec_feed(st, chunks[0]), chunks.skip(1))
    }
}

/// The session state after feeding the chunks in order to a fresh
/// session.
pub open spec fn spec_feed_all(chunks: Seq<Seq<u8>>) -> (
    Seq<u8>,
    Seq<NoticeView>,
    Option<StreamOutcome>,
) {
    spec_feed_from((Seq::empty(), Seq::empty(), None), chunks)
}

/// The chunks concatenated into one byte stream.
pub open spec fn concat_chunks(chunks: Seq<Seq<u8>>) -> Seq<u8>
    decreases chunks.len(),
{
    if chunks.len() == 0 {
        Seq::empty()
    } else {
        chunks[0] + concat_chunks(chunks.skip(1))
    }
}

/// The deliveries and outcome of a whole byte stream decoded at
/// once.
pub open spec fn stream_effect(bytes: Seq<u8>) -> (Seq<NoticeView>, Option<StreamOutcome>) {
    run_frames(split_frames(bytes).0)
}

proof fn lemma_feed_from(
    st: (Seq<u8>, Seq<NoticeView>, Option<StreamOutcome>),
    chunks: Seq<Seq<u8>>,
    consumed: Seq<u8>,
)
    requires
        st.2 is None ==> st.0 == split_frames(consumed).1 && st.1 == stream_effect(consumed).0
            && stream_effect(consumed).1 is None,
        st.2 is Some ==> st.1 == stream_effect(consumed).0 && st.2 == stream_effect(consumed).1,
    ensures
        spec_feed_from(st, chunks).1 == stream_effect(consumed + concat_chunks(chunks)).0,
        spec_feed_from(st, chunks).2 == stream_effect(consumed + concat_chunks(chunks)).1,
    decreases chunks.len(),
{
    if chunks.len() == 0 {
        assert(consumed + concat_chunks(chunks) =~= consumed);
    } else {
        let c = chunks[0];
        let consumed2 = consumed + c;
        crate::sse::lemma_split_frames_append(consumed, c);
        if st.2 is None {
            let st2 = spec_feed(st, c);
            lemma_run_frames_append(split_frames(consumed).0, split_frames(st.0 + c).0);
            assert(st.1 + run_frames(split_frames(st.0 + c).0).0 =~= run_frames(
                split_frames(consumed2).0,
            ).0);
            lemma_feed_from(st2, chunks.skip(1), consumed2);
        } else {
            lemma_run_frames_terminal(
                split_frames(consumed).0,
                split_frames(split_frames(consumed).1 + c).0,
            );
            assert(stream_effect(consumed2).0 == stream_effect(consumed).0);
            assert(stream_effect(consumed2).1 == stream_effect(consumed).1);
            lemma_feed_from(st, chunks.skip(1), consumed2);
        }
        assert(consumed + concat_chunks(chunks) =~= consumed2 + concat_chunks(chunks.skip(1)));
    }
}

/// Law: decoding is split-invariant. Delivering a byte stream to a
/// session in any chunking whatever — including one byte at a time —
/// yields exactly the deliveries and the outcome of the whole stream
/// decoded at once.
pub proof fn lemma_split_invariance(chunks: Seq<Seq<u8>>)
    ensures
        spec_feed_all(chunks).1 == stream_effect(concat_chunks(chunks)).0,
        spec_feed_all(chunks).2 == stream_effect(concat_chunks(chunks)).1,
{
    let empty = Seq::<u8>::empty();
    assert(split_frames(empty).1 == empty);
    assert(stream_effect(empty).0 =~= Seq::<NoticeView>::empty());
    lemma_feed_from((Seq::empty(), Seq::empty(), None), chunks, empty);
    assert(empty + concat_chunks(chunks) =~= concat_chunks(chunks));
}

} // verus!
