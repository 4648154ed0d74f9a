//! The streaming wire format: events separated by a blank line (two
//! consecutive line feeds), each event one or more lines — an
//! `event:<name>` line and `data:<fragment>` lines — with multi-line
//! fragments joined by a line feed to reconstruct the payload.
//!
//! Decoding is buffer-and-scan: inbound bytes accumulate, complete
//! frames are drained eagerly from the front, the residue never holds
//! a delimiter. This assumes the upstream protocol's invariant that
//! the delimiter never appears inside a legitimate data fragment.

use vstd::prelude::*;
use crate::text::{spec_join, trim_bytes, trimmed};

verus! {

/// The first position where the frame delimiter — two consecutive
/// line feeds — begins, if any.
pub open spec fn find_delim(s: Seq<u8>) -> Option<nat>
    decreases s.len(),
{
    if s.len() < 2 {
        None
    } else if s[0] == 10 && s[1] == 10 {
        Some(0)
    } else {
        match find_delim(s.skip(1)) {
            Some(k) => Some((k + 1) as nat),
            None => None,
        }
    }
}

/// What `find_delim` finds: the first delimiter, or none at all.
pub proof fn lemma_find_delim_char(s: Seq<u8>)
    ensures
        match find_delim(s) {
            Some(k) => k + 2 <= s.len() && s[k as int] == 10 && s[k as int + 1] == 10 && forall|
                j: int,
            |
                0 <= j < k ==> !(#[trigger] s[j] == 10 && s[j + 1] == 10),
            None => forall|j: int| 0 <= j && j + 2 <= s.len() ==> !(#[trigger] s[j] == 10 && s[j + 1] == 10),
        },
    decreases s.len(),
{
    if s.len() < 2 {
    } else if s[0] == 10 && s[1] == 10 {
    } else {
        let t = s.skip(1);
        lemma_find_delim_char(t);
        match find_delim(t) {
            Some(k) => {
                assert forall|j: int| 0 <= j < k + 1 implies !(#[trigger] s[j] == 10 && s[j + 1] == 10) by {
                    if j > 0 {
                        assert(t[j - 1] == s[j]);
                        assert(t[j] == s[j + 1]);
                    }
                }
            },
            None => {
                assert forall|j: int| 0 <= j && j + 2 <= s.len() implies !(#[trigger] s[j] == 10 && s[j + 1]
                    == 10) by {
                    if j > 0 {
                        assert(t[j - 1] == s[j]);
                        assert(t[j] == s[j + 1]);
                    }
                }
            },
        }
    }
}

/// A delimiter at `k` with none before it is what `find_delim` finds.
pub proof fn lemma_find_delim_at(s: Seq<u8>, k: int)
    requires
        0 <= k,
        k + 2 <= s.len(),
        s[k] == 10,
        s[k + 1] == 10,
        forall|j: int| 0 <= j < k ==> !(#[trigger] s[j] == 10 && s[j + 1] == 10),
    ensures
        find_delim(s) == Some(k as nat),
    decreases k,
{
    if k == 0 {
    } else {
        let t = s.skip(1);
        assert(t[k - 1] == s[k] && t[k] == s[k + 1]);
        assert forall|j: int| 0 <= j < k - 1 implies !(#[trigger] t[j] == 10 && t[j + 1] == 10) by {
            assert(t[j] == s[j + 1] && t[j + 1] == s[j + 2]);
        }
        lemma_find_delim_at(t, k - 1);
    }
}

/// With no delimiter anywhere, `find_delim` finds none.
pub proof fn lemma_find_delim_none(s: Seq<u8>)
    requires
        forall|j: int| 0 <= j && j + 2 <= s.len() ==> !(#[trigger] s[j] == 10 && s[j + 1] == 10),
    ensures
        find_delim(s) is None,
    decreases s.len(),
{
    if s.len() >= 2 {
        let t = s.skip(1);
        assert forall|j: int| 0 <= j && j + 2 <= t.len() implies !(#[trigger] t[j] == 10 && t[j + 1] == 10) by {
            assert(t[j] == s[j + 1] && t[j + 1] == s[j + 2]);
        }
        lemma_find_delim_none(t);
    }
}

/// Finds the first frame delimiter in `s`.
pub fn find_delim_bytes(s: &[u8]) -> (r: Option<usize>)
    ensures
        r matches Some(k) ==> find_delim(s@) == Some(k as nat),
        r is None ==> find_delim(s@) is None,
{
    let n = s.len();
    if n < 2 {
        proof {
            lemma_find_delim_none(s@);
        }
        return None;
    }
    let mut i: usize = 0;
    while i < n - 1
        invariant
            0 <= i <= n - 1,
            n == s@.len(),
            n >= 2,
            forall|j: int| 0 <= j < i ==> !(#[trigger] s@[j] == 10 && s@[j + 1] == 10),
        decreases n - i,
    {
        if s[i] == 10 && s[i + 1] == 10 {
            proof {
                lemma_find_delim_at(s@, i as int);
            }
            return Some(i);
        }
        i = i + 1;
    }
    proof {
        lemma_find_delim_none(s@);
    }
    None
}

/// The complete frames at the front of `s`, in order, and the
/// residue that holds no complete frame.
pub open spec fn split_frames(s: Seq<u8>) -> (Seq<Seq<u8>>, Seq<u8>)
    decreases s.len(),
{
    match find_delim(s) {
        Some(k) => if k + 2 <= s.len() {
            let rest = split_frames(s.skip(k as int + 2));
            (seq![s.take(k as int)] + rest.0, rest.1)
        } else {
            // cannot arise: the delimiter found lies within `s`
            (Seq::empty(), s)
        },
        None => (Seq::empty(), s),
    }
}

/// Frames are drained eagerly: the residue holds no delimiter.
pub proof fn lemma_split_frames_rest(s: Seq<u8>)
    ensures
        find_delim(split_frames(s).1) is None,
    decreases s.len(),
{
    lemma_find_delim_char(s);
    match find_delim(s) {
        Some(k) => {
            lemma_split_frames_rest(s.skip(k as int + 2));
        },
        None => {},
    }
}

/// Draining a buffer and then more bytes drains the concatenation:
/// the frames of `a + b` are the frames of `a` followed by the
/// frames of `a`'s residue with `b` appended, and the residues agree.
pub proof fn lemma_split_frames_append(a: Seq<u8>, b: Seq<u8>)
    ensures
        split_frames(a + b).0 == split_frames(a).0 + split_frames(split_frames(a).1 + b).0,
        split_frames(a + b).1 == split_frames(split_frames(a).1 + b).1,
    decreases a.len(),
{
    lemma_find_delim_char(a);
    match find_delim(a) {
        None => {
            assert(split_frames(a).1 == a);
            assert(split_frames(a).0 + split_frames(a + b).0 =~= split_frames(a + b).0);
            assert(split_frames(a).1 + b =~= a + b);
        },
        Some(k) => {
            let ki = k as int;
            assert forall|j: int| 0 <= j < ki implies !(#[trigger] (a + b)[j] == 10 && (a + b)[j + 1] == 10) by {
                assert((a + b)[j] == a[j] && (a + b)[j + 1] == a[j + 1]);
            }
            assert((a + b)[ki] == a[ki] && (a + b)[ki + 1] == a[ki + 1]);
            lemma_find_delim_at(a + b, ki);
            assert((a + b).take(ki) =~= a.take(ki));
            assert((a + b).skip(ki + 2) =~= a.skip(ki + 2) + b);
            lemma_split_frames_append(a.skip(ki + 2), b);
            let ar = a.skip(ki + 2);
            assert(split_frames(a + b).0 == seq![a.take(ki)] + split_frames(ar + b).0);
            assert(split_frames(a).1 == split_frames(ar).1);
            assert(seq![a.take(ki)] + (split_frames(ar).0 + split_frames(split_frames(ar).1 + b).0)
                =~= (seq![a.take(ki)] + split_frames(ar).0) + split_frames(split_frames(a).1
                + b).0);
        },
    }
}

/// The first line feed in `s`, if any.
pub open spec fn find_nl(s: Seq<u8>) -> Option<nat>
    decreases s.len(),
{
    if s.len() == 0 {
        None
    } else if s[0] == 10 {
        Some(0)
    } else {
        match find_nl(s.skip(1)) {
            Some(k) => Some((k + 1) as nat),
            None => None,
        }
    }
}

/// A line feed at `k` with none before it is what `find_nl` finds.
pub proof fn lemma_find_nl_at(s: Seq<u8>, k: int)
    requires
        0 <= k < s.len(),
        s[k] == 10,
        forall|j: int| 0 <= j < k ==> s[j] != 10,
    ensures
        find_nl(s) == Some(k as nat),
    decreases k,
{
    if k > 0 {
        let t = s.skip(1);
        assert(t[k - 1] == s[k]);
        assert(forall|j: int| 0 <= j < k - 1 ==> t[j] == s[j + 1] && s[j + 1] != 10);
        lemma_find_nl_at(t, k - 1);
    }
}

/// With no line feed anywhere, `find_nl` finds none.
pub proof fn lemma_find_nl_none(s: Seq<u8>)
    requires
        forall|j: int| 0 <= j < s.len() ==> s[j] != 10,
    ensures
        find_nl(s) is None,
    decreases s.len(),
{
    if s.len() > 0 {
        let t = s.skip(1);
        assert(forall|j: int| 0 <= j < t.len() ==> t[j] == s[j + 1] && s[j + 1] != 10);
        lemma_find_nl_none(t);
    }
}

/// `s` without a trailing carriage return.
pub open spec fn strip_cr(s: Seq<u8>) -> Seq<u8> {
    if s.len() > 0 && s[s.len() - 1] == 13 {
        s.take(s.len() - 1)
    } else {
        s
    }
}

/// The lines of a frame: split at each line feed, with a trailing
/// carriage return stripped from each piece.
pub open spec fn split_lines(s: Seq<u8>) -> Seq<Seq<u8>>
    decreases s.len(),
{
    match find_nl(s) {
        Some(k) => if k < s.len() {
            seq![strip_cr(s.take(k as int))] + split_lines(s.skip(k as int + 1))
        } else {
            // cannot arise: the line feed found lies within `s`
            seq![strip_cr(s)]
        },
        None => seq![strip_cr(s)],
    }
}

/// The bytes that introduce an event-name line.
pub open spec fn event_prefix() -> Seq<u8> {
    seq![101u8, 118u8, 101u8, 110u8, 116u8, 58u8]
}

/// The bytes that introduce a data line.
pub open spec fn data_prefix() -> Seq<u8> {
    seq![100u8, 97u8, 116u8, 97u8, 58u8]
}

/// The default event name of a frame that names none.
pub open spec fn message_name() -> Seq<u8> {
    seq![109u8, 101u8, 115u8, 115u8, 97u8, 103u8, 101u8]
}

/// One pass over a frame's lines, accumulating the fields: the last
/// `event:` value (trimmed) names the event, the trimmed `data:`
/// values accumulate in order; other lines are ignored.
pub open spec fn parse_lines(lines: Seq<Seq<u8>>, name: Seq<u8>, data: Seq<Seq<u8>>) -> (
    Seq<u8>,
    Seq<Seq<u8>>,
)
    decreases lines.len(),
{
    if lines.len() == 0 {
        (name, data)
    } else {
        let l = lines[0];
        if event_prefix().is_prefix_of(l) {
            parse_lines(lines.skip(1), trimmed(l.skip(6)), data)
        } else if data_prefix().is_prefix_of(l) {
            parse_lines(lines.skip(1), name, data.push(trimmed(l.skip(5))))
        } else {
            parse_lines(lines.skip(1), name, data)
        }
    }
}

/// The fields of one frame: its event name and its data fragments.
pub open spec fn spec_frame_fields(frame: Seq<u8>) -> (Seq<u8>, Seq<Seq<u8>>) {
    parse_lines(split_lines(frame), message_name(), Seq::empty())
}

/// The event name of one frame.
pub open spec fn spec_event_name(frame: Seq<u8>) -> Seq<u8> {
    spec_frame_fields(frame).0
}

/// The reconstructed payload of one frame: its data fragments joined
/// with a line feed.
pub open spec fn spec_payload(frame: Seq<u8>) -> Seq<u8> {
    spec_join(spec_frame_fields(frame).1, 10u8)
}

/// Parses one frame into its event name and reconstructed payload.
pub fn parse_frame(frame: &[u8]) -> (r: (Vec<u8>, Vec<u8>))
    ensures
        r.0@ == spec_event_name(frame@),
        r.1@ == spec_payload(frame@),
{
    let n = frame.len();
    let mut name: Vec<u8> = event_name_default();
    let mut payload: Vec<u8> = Vec::new();
    let mut data_any = false;
    let ev_prefix = event_prefix_bytes();
    let da_prefix = data_prefix_bytes();
    let ghost whole_fields = spec_frame_fields(frame@);
    let ghost mut data: Seq<Seq<u8>> = Seq::empty();
    let mut pos: usize = 0;
    let mut done = false;
    proof {
        assert(frame@.skip(0) =~= frame@);
    }
    while !done
        invariant
            0 <= pos <= n == frame@.len(),
            ev_prefix@ == event_prefix(),
            da_prefix@ == data_prefix(),
            whole_fields == spec_frame_fields(frame@),
            !done ==> parse_lines(split_lines(frame@.skip(pos as int)), name@, data)
                == whole_fields,
            done ==> (name@, data) == whole_fields,
            data_any == (data.len() > 0),
            data_any ==> payload@ == spec_join(data, 10u8),
            !data_any ==> payload@.len() == 0,
        decreases n - pos + (if done { 0int } else { 1int }),
    {
        let ghost rem = frame@.skip(pos as int);
        // find the next line feed
        let mut j: usize = pos;
        while j < n && frame[j] != 10
            invariant
                pos <= j <= n == frame@.len(),
                forall|t: int| pos <= t < j ==> frame@[t] != 10,
            decreases n - j,
        {
            j = j + 1;
        }
        proof {
            if j < n {
                assert(rem[j - pos] == 10);
                assert(forall|t: int| 0 <= t < j - pos ==> rem[t] == frame@[t + pos] && frame@[t
                    + pos] != 10);
                lemma_find_nl_at(rem, j - pos);
                assert(rem.take(j - pos) =~= frame@.subrange(pos as int, j as int));
                assert(rem.skip(j - pos + 1) =~= frame@.skip(j as int + 1));
            } else {
                assert(forall|t: int| 0 <= t < rem.len() ==> rem[t] == frame@[t + pos] && frame@[t
                    + pos] != 10);
                lemma_find_nl_none(rem);
                assert(rem =~= frame@.subrange(pos as int, j as int));
            }
        }
        // the raw line, with a trailing carriage return stripped
        let line_end = if j > pos && frame[j - 1] == 13 {
            j - 1
        } else {
            j
        };
        let ghost raw = frame@.subrange(pos as int, j as int);
        proof {
            assert(frame@.subrange(pos as int, line_end as int) =~= strip_cr(raw));
        }
        let line = crate::text::subrange_vec(frame, pos, line_end);
        let ghost lines_rem = split_lines(rem);
        proof {
            if j < n {
                assert(lines_rem == seq![strip_cr(raw)] + split_lines(frame@.skip(j as int + 1)));
                assert(lines_rem[0] == strip_cr(raw));
                assert(lines_rem.skip(1) =~= split_lines(frame@.skip(j as int + 1)));
            } else {
                assert(lines_rem == seq![strip_cr(raw)]);
                assert(lines_rem[0] == strip_cr(raw));
                assert(lines_rem.skip(1) =~= Seq::<Seq<u8>>::empty());
            }
        }
        // classify the line
        if crate::text::starts_with(line.as_slice(), ev_prefix.as_slice()) {
            proof {
                assert(event_prefix().is_prefix_of(line@));
                assert(event_prefix().len() == 6);
                assert(line@.len() >= 6);
            }
            let value = trim_bytes(vstd::slice::slice_subrange(line.as_slice(), 6, line.len()));
            proof {
                assert(line@.subrange(6, line@.len() as int) =~= line@.skip(6));
            }
            name = value;
        } else if crate::text::starts_with(line.as_slice(), da_prefix.as_slice()) {
            proof {
                assert(data_prefix().is_prefix_of(line@));
                assert(data_prefix().len() == 5);
                assert(line@.len() >= 5);
            }
            let value = trim_bytes(vstd::slice::slice_subrange(line.as_slice(), 5, line.len()));
            proof {
                assert(line@.subrange(5, line@.len() as int) =~= line@.skip(5));
                crate::text::lemma_join_push(data, trimmed(line@.skip(5)), 10u8);
            }
            if data_any {
                payload.push(10);
            }
            crate::text::push_all(&mut payload, value.as_slice());
            proof {
                data = data.push(trimmed(line@.skip(5)));
            }
            data_any = true;
        }
        // advance past the line feed, or finish on the last line
        if j < n {
            pos = j + 1;
        } else {
            pos = j;
            done = true;
            proof {
                assert(parse_lines(lines_rem.skip(1), name@, data) == (name@, data));
            }
        }
    }
    (name, payload)
}

/// The default event name, `message`, as bytes.
fn event_name_default() -> (r: Vec<u8>)
    ensures
        r@ == message_name(),
{
    let mut r: Vec<u8> = Vec::new();
    r.push(109);
    r.push(101);
    r.push(115);
    r.push(115);
    r.push(97);
    r.push(103);
    r.push(101);
    proof {
        assert(r@ =~= message_name());
    }
    r
}

/// The event-name introducer, `event:`, as bytes.
fn event_prefix_bytes() -> (r: Vec<u8>)
    ensures
        r@ == event_prefix(),
{
    let mut r: Vec<u8> = Vec::new();
    r.push(101);
    r.push(118);
    r.push(101);
    r.push(110);
    r.push(116);
    r.push(58);
    proof {
        assert(r@ =~= event_prefix());
    }
    r
}

/// The data introducer, `data:`, as bytes.
fn data_prefix_bytes() -> (r: Vec<u8>)
    ensures
        r@ == data_prefix(),
{
    let mut r: Vec<u8> = Vec::new();
    r.push(100);
    r.push(97);
    r.push(116);
    r.push(97);
    r.push(58);
    proof {
        assert(r@ =~= data_prefix());
    }
    r
}

} // verus!
