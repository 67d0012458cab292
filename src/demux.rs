//! Extraction of JPEG frames from the byte stream of a preview capture.
use vstd::prelude::*;

use base64::Engine as _;

verus! {

/// First byte of both markers.
pub const MARKER_LEAD: u8 = 0xFF;

/// Second byte of the start-of-image marker.
pub const START_TAG: u8 = 0xD8;

/// Second byte of the end-of-image marker.
pub const END_TAG: u8 = 0xD9;

/// The marker `FF tag` stands at `i` of `s`.
pub open spec fn marker_at(s: Seq<u8>, i: int, tag: u8) -> bool {
    0 <= i && i + 1 < s.len() && s[i] == MARKER_LEAD && s[i + 1] == tag
}

/// The first place at or after `from` where the marker `FF tag` stands.
pub open spec fn first_marker(s: Seq<u8>, from: int, tag: u8) -> Option<int>
    decreases s.len() - from,
{
    if from < 0 || from + 1 >= s.len() {
        None
    } else if marker_at(s, from, tag) {
        Some(from)
    } else {
        first_marker(s, from + 1, tag)
    }
}

/// What a buffer yields: its complete frames, in order, and what stays
/// buffered. Bytes before a start marker are dropped; a frame runs from a
/// start marker through the first end marker after it; a start marker with no
/// end marker yet stays buffered from that marker on.
pub open spec fn demux(buf: Seq<u8>) -> (Seq<Seq<u8>>, Seq<u8>)
    decreases buf.len(),
{
    match first_marker(buf, 0, START_TAG) {
        None => (Seq::empty(), buf),
        Some(p) => if 0 <= p <= buf.len() {
            let rest = buf.skip(p);
            match first_marker(rest, 2, END_TAG) {
                None => (Seq::empty(), rest),
                Some(e) => if 2 <= e && e + 2 <= rest.len() {
                    let next = demux(rest.skip(e + 2));
                    (seq![rest.take(e + 2)] + next.0, next.1)
                } else {
                    (Seq::empty(), buf)
                },
            }
        } else {
            (Seq::empty(), buf)
        },
    }
}

/// The views of a list of frames.
pub open spec fn frames_view(v: Seq<Vec<u8>>) -> Seq<Seq<u8>> {
    v.map_values(|f: Vec<u8>| f@)
}

pub proof fn lemma_first_marker_found(s: Seq<u8>, from: int, tag: u8)
    requires
        first_marker(s, from, tag) is Some,
    ensures
        ({
            let p = first_marker(s, from, tag)->Some_0;
            &&& from <= p
            &&& marker_at(s, p, tag)
            &&& forall|i: int| from <= i < p ==> !marker_at(s, i, tag)
        }),
    decreases s.len() - from,
{
    if !(from < 0 || from + 1 >= s.len()) && !marker_at(s, from, tag) {
        lemma_first_marker_found(s, from + 1, tag);
    }
}

pub proof fn lemma_first_marker_absent(s: Seq<u8>, from: int, tag: u8)
    requires
        from >= 0,
        first_marker(s, from, tag) is None,
    ensures
        forall|i: int| from <= i ==> !marker_at(s, i, tag),
    decreases s.len() - from,
{
    if !(from + 1 >= s.len()) {
        lemma_first_marker_absent(s, from + 1, tag);
    }
}

/// The first marker is the one at `p` when none stands in `[from, p)`.
pub proof fn lemma_first_marker_is(s: Seq<u8>, from: int, p: int, tag: u8)
    requires
        0 <= from <= p,
        marker_at(s, p, tag),
        forall|i: int| from <= i < p ==> !marker_at(s, i, tag),
    ensures
        first_marker(s, from, tag) == Some(p),
    decreases p - from,
{
    if from < p {
        lemma_first_marker_is(s, from + 1, p, tag);
    }
}

/// A marker found in a prefix is still the first one once more bytes follow.
pub proof fn lemma_first_marker_extend(x: Seq<u8>, y: Seq<u8>, from: int, tag: u8)
    requires
        from >= 0,
        first_marker(x, from, tag) is Some,
    ensures
        first_marker(x + y, from, tag) == first_marker(x, from, tag),
{
    lemma_first_marker_found(x, from, tag);
    let p = first_marker(x, from, tag)->Some_0;
    assert forall|i: int| from <= i < p implies !marker_at(x + y, i, tag) by {
        assert(!marker_at(x, i, tag));
        assert(i + 1 < x.len());
        assert((x + y)[i] == x[i] && (x + y)[i + 1] == x[i + 1]);
    }
    assert((x + y)[p] == x[p] && (x + y)[p + 1] == x[p + 1]);
    lemma_first_marker_is(x + y, from, p, tag);
}

/// Feeding `x` and then `y` yields what feeding `x + y` at once yields: the
/// frames of `x`, then those of what `x` left buffered followed by `y`.
pub proof fn lemma_demux_split(x: Seq<u8>, y: Seq<u8>)
    ensures
        demux(x + y) == (
            demux(x).0 + demux(demux(x).1 + y).0,
            demux(demux(x).1 + y).1,
        ),
    decreases x.len(),
{
    match first_marker(x, 0, START_TAG) {
        None => {
            assert(demux(x).0 =~= Seq::<Seq<u8>>::empty());
            assert(demux(x).0 + demux(x + y).0 =~= demux(x + y).0);
        },
        Some(p) => {
            lemma_first_marker_found(x, 0, START_TAG);
            lemma_first_marker_extend(x, y, 0, START_TAG);
            let rest = x.skip(p);
            assert((x + y).skip(p) =~= rest + y);
            assert(marker_at(rest + y, 0, START_TAG));
            lemma_first_marker_is(rest + y, 0, 0, START_TAG);
            assert((rest + y).skip(0) =~= rest + y);
            match first_marker(rest, 2, END_TAG) {
                None => {
                    assert(demux(x).0 =~= Seq::<Seq<u8>>::empty());
                    assert(demux(x).1 == rest);
                    assert(Seq::<Seq<u8>>::empty() + demux(rest + y).0 =~= demux(rest + y).0);
                    if first_marker(rest + y, 2, END_TAG) is Some {
                        lemma_first_marker_found(rest + y, 2, END_TAG);
                    }
                    assert(demux(x + y) == demux(rest + y));
                },
                Some(e) => {
                    lemma_first_marker_found(rest, 2, END_TAG);
                    lemma_first_marker_extend(rest, y, 2, END_TAG);
                    let tail = rest.skip(e + 2);
                    assert((rest + y).skip(e + 2) =~= tail + y);
                    assert((rest + y).take(e + 2) =~= rest.take(e + 2));
                    lemma_demux_split(tail, y);
                    assert(demux(x).0 == seq![rest.take(e + 2)] + demux(tail).0);
                    assert(demux(x).1 == demux(tail).1);
                    assert(demux(x + y).0 =~= demux(x).0 + demux(demux(x).1 + y).0);
                    assert(demux(rest + y).0 =~= demux(x).0 + demux(demux(x).1 + y).0);
                    assert(demux(x + y).1 == demux(demux(x).1 + y).1);
                },
            }
        },
    }
}

/// The stream of one frame: `FF D8`, a body, `FF D9`.
pub open spec fn framed(body: Seq<u8>) -> Seq<u8> {
    seq![MARKER_LEAD, START_TAG] + body + seq![MARKER_LEAD, END_TAG]
}

/// The body holds no end marker, not even one that begins on the start
/// marker's last byte.
pub open spec fn body_ok(body: Seq<u8>) -> bool {
    first_marker(seq![MARKER_LEAD, START_TAG] + body, 2, END_TAG) is None
}

/// Stray bytes followed by one frame yield exactly that frame, and nothing
/// stays buffered.
pub proof fn lemma_demux_one_frame(junk: Seq<u8>, body: Seq<u8>)
    requires
        first_marker(junk, 0, START_TAG) is None,
        body_ok(body),
    ensures
        demux(junk + framed(body)) == (seq![framed(body)], Seq::<u8>::empty()),
{
    let f = framed(body);
    let s = junk + f;
    let head = seq![MARKER_LEAD, START_TAG] + body;
    lemma_first_marker_absent(junk, 0, START_TAG);
    assert forall|i: int| 0 <= i < junk.len() implies !marker_at(s, i, START_TAG) by {
        if i + 1 < junk.len() {
            assert(!marker_at(junk, i, START_TAG));
            assert(s[i] == junk[i] && s[i + 1] == junk[i + 1]);
        } else {
            assert(s[i + 1] == f[0]);
        }
    }
    assert(s[junk.len() as int] == f[0] && s[junk.len() as int + 1] == f[1]);
    lemma_first_marker_is(s, 0, junk.len() as int, START_TAG);
    assert(s.skip(junk.len() as int) =~= f);
    lemma_first_marker_absent(head, 2, END_TAG);
    let last = f.len() - 2;
    assert forall|i: int| 2 <= i < last implies !marker_at(f, i, END_TAG) by {
        if i + 1 < head.len() {
            assert(!marker_at(head, i, END_TAG));
            assert(f[i] == head[i] && f[i + 1] == head[i + 1]);
        } else {
            assert(f[i + 1] == MARKER_LEAD);
        }
    }
    lemma_first_marker_is(f, 2, last, END_TAG);
    assert(f.take(last + 2) =~= f);
    assert(f.skip(last + 2) =~= Seq::<u8>::empty());
    assert(demux(Seq::<u8>::empty()) == (Seq::<Seq<u8>>::empty(), Seq::<u8>::empty()));
    assert(seq![f] + Seq::<Seq<u8>>::empty() =~= seq![f]);
}

/// However one frame's stream (after stray bytes) is split into two reads,
/// exactly that frame comes out, and the stray bytes appear in no frame.
pub proof fn lemma_one_frame_any_split(junk: Seq<u8>, body: Seq<u8>, k: int)
    requires
        first_marker(junk, 0, START_TAG) is None,
        body_ok(body),
        0 <= k <= junk.len() + framed(body).len(),
    ensures
        ({
            let s = junk + framed(body);
            let first = demux(s.take(k));
            let second = demux(first.1 + s.skip(k));
            &&& first.0 + second.0 == seq![framed(body)]
            &&& second.1 == Seq::<u8>::empty()
        }),
{
    let s = junk + framed(body);
    assert(s.take(k) + s.skip(k) =~= s);
    lemma_demux_split(s.take(k), s.skip(k));
    lemma_demux_one_frame(junk, body);
}

/// A start marker whose end marker has not arrived yields no frame; the
/// bytes from the start marker on stay buffered.
pub proof fn lemma_demux_incomplete(junk: Seq<u8>, body: Seq<u8>)
    requires
        first_marker(junk, 0, START_TAG) is None,
        body_ok(body),
    ensures
        demux(junk + seq![MARKER_LEAD, START_TAG] + body) == (
            Seq::<Seq<u8>>::empty(),
            seq![MARKER_LEAD, START_TAG] + body,
        ),
{
    let head = seq![MARKER_LEAD, START_TAG] + body;
    let s = junk + head;
    assert(junk + seq![MARKER_LEAD, START_TAG] + body =~= s);
    lemma_first_marker_absent(junk, 0, START_TAG);
    assert forall|i: int| 0 <= i < junk.len() implies !marker_at(s, i, START_TAG) by {
        if i + 1 < junk.len() {
            assert(!marker_at(junk, i, START_TAG));
            assert(s[i] == junk[i] && s[i + 1] == junk[i + 1]);
        } else {
            assert(s[i + 1] == head[0]);
        }
    }
    assert(s[junk.len() as int] == head[0] && s[junk.len() as int + 1] == head[1]);
    lemma_first_marker_is(s, 0, junk.len() as int, START_TAG);
    assert(s.skip(junk.len() as int) =~= head);
}

/// Every frame that comes out starts with a start marker and ends with an
/// end marker.
pub proof fn lemma_frames_delimited(buf: Seq<u8>)
    ensures
        forall|i: int|
            0 <= i < demux(buf).0.len() ==> {
                let f = #[trigger] demux(buf).0[i];
                &&& f.len() >= 4
                &&& f[0] == MARKER_LEAD && f[1] == START_TAG
                &&& f[f.len() - 2] == MARKER_LEAD && f[f.len() - 1] == END_TAG
            },
    decreases buf.len(),
{
    match first_marker(buf, 0, START_TAG) {
        None => {},
        Some(p) => {
            lemma_first_marker_found(buf, 0, START_TAG);
            let rest = buf.skip(p);
            match first_marker(rest, 2, END_TAG) {
                None => {},
                Some(e) => {
                    lemma_first_marker_found(rest, 2, END_TAG);
                    let tail = rest.skip(e + 2);
                    lemma_frames_delimited(tail);
                    let out = demux(buf).0;
                    assert forall|i: int|
                        0 <= i < out.len() implies {
                            let f = #[trigger] out[i];
                            &&& f.len() >= 4
                            &&& f[0] == MARKER_LEAD && f[1] == START_TAG
                            &&& f[f.len() - 2] == MARKER_LEAD && f[f.len() - 1] == END_TAG
                        } by {
                        if i > 0 {
                            assert(out[i] == demux(tail).0[i - 1]);
                        }
                    }
                },
            }
        },
    }
}

/// The bytes of a sequence of reads, one after another.
pub open spec fn concat_reads(reads: Seq<Seq<u8>>) -> Seq<u8>
    decreases reads.len(),
{
    if reads.len() == 0 {
        Seq::empty()
    } else {
        concat_reads(reads.drop_last()) + reads.last()
    }
}

/// What feeding the reads one by one into an empty demuxer yields: the
/// frames of every read in order, and what stays buffered after the last.
pub open spec fn feed_reads(reads: Seq<Seq<u8>>) -> (Seq<Seq<u8>>, Seq<u8>)
    decreases reads.len(),
{
    if reads.len() == 0 {
        (Seq::empty(), Seq::empty())
    } else {
        let before = feed_reads(reads.drop_last());
        let step = demux(before.1 + reads.last());
        (before.0 + step.0, step.1)
    }
}

/// Feeding a stream in any number of reads yields what feeding it at once
/// yields.
pub proof fn lemma_feed_reads(reads: Seq<Seq<u8>>)
    ensures
        feed_reads(reads) == demux(concat_reads(reads)),
    decreases reads.len(),
{
    if reads.len() == 0 {
        assert(first_marker(Seq::<u8>::empty(), 0, START_TAG) is None);
        assert(demux(Seq::<u8>::empty()).0 =~= Seq::<Seq<u8>>::empty());
    } else {
        let prefix = reads.drop_last();
        lemma_feed_reads(prefix);
        lemma_demux_split(concat_reads(prefix), reads.last());
    }
}

/// However a stream of stray bytes and one frame is cut into reads, exactly
/// that frame comes out and nothing stays buffered; the stray bytes appear
/// in no frame.
pub proof fn lemma_one_frame_any_reads(junk: Seq<u8>, body: Seq<u8>, reads: Seq<Seq<u8>>)
    requires
        first_marker(junk, 0, START_TAG) is None,
        body_ok(body),
        concat_reads(reads) == junk + framed(body),
    ensures
        feed_reads(reads) == (seq![framed(body)], Seq::<u8>::empty()),
{
    lemma_feed_reads(reads);
    lemma_demux_one_frame(junk, body);
}

/// However the bytes read so far are cut into reads, a start marker with no
/// end marker after it yields no frame, and it stays buffered from the
/// marker on.
pub proof fn lemma_incomplete_any_reads(junk: Seq<u8>, body: Seq<u8>, reads: Seq<Seq<u8>>)
    requires
        first_marker(junk, 0, START_TAG) is None,
        body_ok(body),
        concat_reads(reads) == junk + seq![MARKER_LEAD, START_TAG] + body,
    ensures
        feed_reads(reads) == (Seq::<Seq<u8>>::empty(), seq![MARKER_LEAD, START_TAG] + body),
{
    lemma_feed_reads(reads);
    lemma_demux_incomplete(junk, body);
}

/// Names the padded, standard-alphabet base64 text of a byte sequence.
pub uninterp spec fn base64_standard(b: Seq<u8>) -> Seq<char>;

/// The length of padded base64 text: four characters per started group of
/// three bytes.
pub open spec fn base64_len(n: nat) -> nat {
    4 * ((n + 2) / 3)
}

/// Relies on `base64::engine::general_purpose::STANDARD.encode` (base64
/// 0.22): the padded standard base64 text of the bytes, whose length its
/// `encoded_len` gives; it panics only when that length overflows `usize`.
#[verifier::external_body]
fn encode_base64(b: &[u8]) -> (r: String)
    requires
        base64_len(b@.len()) <= usize::MAX,
    ensures
        r@ == base64_standard(b@),
        r@.len() == base64_len(b@.len()),
{
    base64::engine::general_purpose::STANDARD.encode(b)
}

/// The longest buffer a demuxer holds: the largest size of any allocation.
pub const MAX_BUFFERED: usize = usize::MAX / 2;

/// Encodes one frame for transport as base64 text.
pub fn encode_frame(frame: &Vec<u8>) -> (r: String)
    requires
        frame@.len() <= MAX_BUFFERED,
    ensures
        r@ == base64_standard(frame@),
{
    encode_base64(frame.as_slice())
}

/// The first place at or after `from` where the marker `FF tag` stands.
fn find_marker(buf: &Vec<u8>, from: usize, tag: u8) -> (r: Option<usize>)
    ensures
        r is None ==> first_marker(buf@, from as int, tag) is None,
        r is Some ==> first_marker(buf@, from as int, tag) == Some(r->Some_0 as int),
        r is Some ==> r->Some_0 + 2 <= buf.len(),
{
    let mut i = from;
    while i < buf.len() && i + 1 < buf.len()
        invariant
            from <= i,
            first_marker(buf@, from as int, tag) == first_marker(buf@, i as int, tag),
        decreases buf.len() - i,
    {
        if buf[i] == MARKER_LEAD && buf[i + 1] == tag {
            return Some(i);
        }
        i = i + 1;
    }
    None
}

/// Splits a preview stream into frames as bytes arrive; partial data stays
/// buffered between reads.
pub struct FrameDemuxer {
    buffer: Vec<u8>,
}

impl View for FrameDemuxer {
    type V = Seq<u8>;

    closed spec fn view(&self) -> Seq<u8> {
        self.buffer@
    }
}

pub proof fn lemma_frames_view_push(v: Seq<Vec<u8>>, f: Vec<u8>)
    ensures
        frames_view(v.push(f)) == frames_view(v).push(f@),
{
    assert(frames_view(v.push(f)) =~= frames_view(v).push(f@));
}

impl FrameDemuxer {
    /// A demuxer with nothing buffered.
    pub fn new() -> (r: Self)
        ensures
            r@ == Seq::<u8>::empty(),
    {
        FrameDemuxer { buffer: Vec::new() }
    }

    /// How many bytes are buffered.
    pub fn pending_len(&self) -> (r: usize)
        ensures
            r == self@.len(),
    {
        self.buffer.len()
    }

    /// Appends a chunk and takes out every complete frame, in order.
    pub fn feed(&mut self, chunk: &[u8]) -> (frames: Vec<Vec<u8>>)
        ensures
            (frames_view(frames@), final(self)@) == demux(old(self)@ + chunk@),
            forall|i: int|
                0 <= i < frames@.len() ==> (#[trigger] frames@[i])@.len() <= old(self)@.len()
                    + chunk@.len(),
            final(self)@.len() <= old(self)@.len() + chunk@.len(),
    {
        let ghost total = self.buffer@ + chunk@;
        self.buffer.extend_from_slice(chunk);
        proof {
            assert(self.buffer@ =~= total);
        }
        let mut frames: Vec<Vec<u8>> = Vec::new();
        let mut done = false;
        while !done
            invariant
                demux(total) == (
                    frames_view(frames@) + demux(self.buffer@).0,
                    demux(self.buffer@).1,
                ),
                done ==> demux(self.buffer@) == (Seq::<Seq<u8>>::empty(), self.buffer@),
                self.buffer@.len() <= total.len(),
                forall|i: int| 0 <= i < frames@.len() ==> (#[trigger] frames@[i])@.len() <= total.len(),
            decreases self.buffer@.len() + (if done { 0int } else { 1int }),
        {
            let ghost before = self.buffer@;
            match find_marker(&self.buffer, 0, START_TAG) {
                None => {
                    done = true;
                },
                Some(p) => {
                    proof {
                        lemma_first_marker_found(before, 0, START_TAG);
                    }
                    let tail = self.buffer.split_off(p);
                    self.buffer = tail;
                    proof {
                        assert(self.buffer@ =~= before.skip(p as int));
                    }
                    let ghost rest = self.buffer@;
                    match find_marker(&self.buffer, 2, END_TAG) {
                        None => {
                            proof {
                                assert(demux(before) == (Seq::<Seq<u8>>::empty(), rest));
                                assert(marker_at(rest, 0, START_TAG));
                                lemma_first_marker_is(rest, 0, 0, START_TAG);
                                assert(rest.skip(0) =~= rest);
                                assert(demux(rest) == (Seq::<Seq<u8>>::empty(), rest));
                                assert(frames_view(frames@) + Seq::<Seq<u8>>::empty() =~= frames_view(frames@));
                            }
                            done = true;
                        },
                        Some(e) => {
                            proof {
                                lemma_first_marker_found(rest, 2, END_TAG);
                            }
                            let mut frame = self.buffer.split_off(e + 2);
                            std::mem::swap(&mut self.buffer, &mut frame);
                            proof {
                                assert(frame@ =~= rest.take(e + 2));
                                assert(self.buffer@ =~= rest.skip(e + 2));
                                lemma_frames_view_push(frames@, frame);
                                assert(frames_view(frames@.push(frame)) + demux(self.buffer@).0 =~= frames_view(frames@) + demux(before).0);
                            }
                            frames.push(frame);
                        },
                    }
                },
            }
        }
        proof {
            assert(frames_view(frames@) + Seq::<Seq<u8>>::empty() =~= frames_view(frames@));
        }
        frames
    }

    /// Appends a chunk and returns every complete frame, in order, as base64
    /// text.
    pub fn feed_encoded(&mut self, chunk: &[u8]) -> (r: Vec<String>)
        requires
            old(self)@.len() + chunk@.len() <= MAX_BUFFERED,
        ensures
            final(self)@ == demux(old(self)@ + chunk@).1,
            final(self)@.len() <= old(self)@.len() + chunk@.len(),
            r@.len() == demux(old(self)@ + chunk@).0.len(),
            forall|i: int|
                0 <= i < r@.len() ==> (#[trigger] r@[i])@ == base64_standard(
                    demux(old(self)@ + chunk@).0[i],
                ),
    {
        let frames = self.feed(chunk);
        let mut out: Vec<String> = Vec::new();
        let mut i: usize = 0;
        while i < frames.len()
            invariant
                i <= frames.len(),
                out@.len() == i,
                forall|j: int| 0 <= j < frames@.len() ==> (#[trigger] frames@[j])@.len() <= MAX_BUFFERED,
                forall|j: int| 0 <= j < i ==> (#[trigger] out@[j])@ == base64_standard(frames@[j]@),
            decreases frames.len() - i,
        {
            out.push(encode_frame(&frames[i]));
            i = i + 1;
        }
        proof {
            assert forall|j: int| 0 <= j < out@.len() implies (#[trigger] out@[j])@ == base64_standard(
                demux(old(self)@ + chunk@).0[j],
            ) by {
                assert(frames_view(frames@)[j] == frames@[j]@);
            }
        }
        out
    }
}

} // verus!
