//! Frame extraction: cutting marker-delimited frames out of a byte stream
//! that arrives in pieces of arbitrary size.

use vstd::prelude::*;
use vstd::slice::{slice_subrange, slice_to_vec};

verus! {

/// The byte that opens a frame (`-`).
pub const START_MARKER: u8 = 0x2d;

/// The byte that closes a frame (`_`).
pub const END_MARKER: u8 = 0x5f;

/// Position of the first `b` in `s`, or `s.len()` when `s` holds none.
pub open spec fn first_index(s: Seq<u8>, b: u8) -> nat
    decreases s.len(),
{
    if s.len() == 0 {
        0
    } else if s[0] == b {
        0
    } else {
        1 + first_index(s.drop_first(), b)
    }
}

/// A complete frame: a start marker, a body without end marker, an end marker.
pub open spec fn is_frame(f: Seq<u8>) -> bool {
    &&& f.len() >= 2
    &&& f[0] == START_MARKER
    &&& f[f.len() - 1] == END_MARKER
    &&& forall|i: int| 0 <= i < f.len() - 1 ==> f[i] != END_MARKER
}

/// The frames that one extraction pass cuts out of `buf`, in stream order.
///
/// Everything before the first start marker is skipped; the frame runs from
/// that marker to the first end marker after it; the pass then goes on behind
/// the frame.
pub open spec fn frames_in(buf: Seq<u8>) -> Seq<Seq<u8>>
    decreases buf.len(),
{
    let start = first_index(buf, START_MARKER) as int;
    let tail = buf.skip(start);
    let end = first_index(tail, END_MARKER) as int;
    if start >= buf.len() || end >= tail.len() {
        Seq::empty()
    } else {
        seq![tail.take(end + 1)] + frames_in(tail.skip(end + 1))
    }
}

/// What one extraction pass leaves in the buffer: all of `buf` while it holds
/// no start marker; otherwise the unfinished frame that begins at the first
/// start marker not yet closed by an end marker.
pub open spec fn remainder(buf: Seq<u8>) -> Seq<u8>
    decreases buf.len(),
{
    let start = first_index(buf, START_MARKER) as int;
    let tail = buf.skip(start);
    let end = first_index(tail, END_MARKER) as int;
    if start >= buf.len() {
        buf
    } else if end >= tail.len() {
        tail
    } else {
        remainder(tail.skip(end + 1))
    }
}

/// What `first_index` returns: it lies within `0..=len`, no earlier position
/// holds `b`, and if it lies before the end it holds `b`.
pub proof fn lemma_first_index(s: Seq<u8>, b: u8)
    ensures
        first_index(s, b) <= s.len(),
        forall|j: int| 0 <= j < first_index(s, b) ==> s[j] != b,
        first_index(s, b) < s.len() ==> s[first_index(s, b) as int] == b,
    decreases s.len(),
{
    if s.len() > 0 && s[0] != b {
        let rest = s.drop_first();
        lemma_first_index(rest, b);
        assert forall|j: int| 0 <= j < first_index(s, b) implies s[j] != b by {
            if j > 0 {
                assert(s[j] == rest[j - 1]);
            }
        }
        let r = first_index(rest, b) as int;
        assert(r < rest.len() ==> rest[r] == s[r + 1]);
    }
}

/// `first_index` is the only position with the properties of `lemma_first_index`.
pub proof fn lemma_first_index_unique(s: Seq<u8>, b: u8, k: int)
    requires
        0 <= k <= s.len(),
        forall|j: int| 0 <= j < k ==> s[j] != b,
        k < s.len() ==> s[k] == b,
    ensures
        first_index(s, b) == k,
{
    lemma_first_index(s, b);
    let r = first_index(s, b) as int;
    if r < k {
        assert(s[r] != b);
    } else if k < r {
        assert(s[k] != b);
    }
}

/// One complete frame as it was cut out of the stream, markers included.
#[derive(Debug)]
pub struct RawFrame {
    bytes: Vec<u8>,
}

impl RawFrame {
    #[verifier::type_invariant]
    spec fn well_formed(self) -> bool {
        is_frame(self.bytes@)
    }

    /// The bytes of the frame, markers included.
    pub closed spec fn view(&self) -> Seq<u8> {
        self.bytes@
    }

    /// Takes `bytes` as a frame if they form one.
    pub fn from_bytes(bytes: Vec<u8>) -> (frame: Option<RawFrame>)
        ensures
            frame is Some <==> is_frame(bytes@),
            frame matches Some(f) ==> f@ == bytes@,
    {
        let n = bytes.len();
        if n < 2 || bytes[0] != START_MARKER || bytes[n - 1] != END_MARKER {
            return None;
        }
        let end = find_byte(&bytes, 0, END_MARKER);
        proof {
            lemma_first_index(bytes@.skip(0), END_MARKER);
            assert(bytes@.skip(0) == bytes@);
        }
        if end == n - 1 {
            Some(RawFrame { bytes })
        } else {
            None
        }
    }

    /// The bytes of the frame, markers included; they always form a
    /// complete frame.
    pub fn as_bytes(&self) -> (bytes: &Vec<u8>)
        ensures
            bytes@ == self@,
            is_frame(self@),
    {
        proof {
            use_type_invariant(self);
        }
        &self.bytes
    }
}

/// Position of the first `b` in `data` at or after `from`, or `data.len()`.
fn find_byte(data: &Vec<u8>, from: usize, b: u8) -> (at: usize)
    requires
        from <= data.len(),
    ensures
        from <= at <= data.len(),
        at - from == first_index(data@.skip(from as int), b),
{
    let mut i: usize = from;
    while i < data.len() && data[i] != b
        invariant
            from <= i <= data.len(),
            forall|j: int| from <= j < i ==> data@[j] != b,
        decreases data.len() - i,
    {
        i += 1;
    }
    proof {
        lemma_first_index_unique(data@.skip(from as int), b, i - from);
    }
    i
}

/// The byte sequences of a list of frames.
pub open spec fn frame_views(frames: Seq<RawFrame>) -> Seq<Seq<u8>> {
    frames.map_values(|f: RawFrame| f@)
}

/// The bytes received from the device and not yet given out as frames.
#[derive(Debug)]
pub struct StreamBuffer {
    data: Vec<u8>,
}

impl StreamBuffer {
    /// The buffered bytes, oldest first.
    pub closed spec fn view(&self) -> Seq<u8> {
        self.data@
    }

    /// An empty buffer.
    pub fn new() -> (buffer: StreamBuffer)
        ensures
            buffer@ == Seq::<u8>::empty(),
    {
        StreamBuffer { data: Vec::new() }
    }

    /// The buffered bytes, oldest first.
    pub fn pending(&self) -> (bytes: &Vec<u8>)
        ensures
            bytes@ == self@,
    {
        &self.data
    }

    /// Appends `bytes` to the buffer and cuts out every frame that is now
    /// complete. The frames come in stream order; what the pass leaves
    /// behind stays buffered for the next call.
    pub fn ingest(&mut self, bytes: &[u8]) -> (frames: Vec<RawFrame>)
        ensures
            frame_views(frames@) == frames_in(old(self)@ + bytes@),
            final(self)@ == remainder(old(self)@ + bytes@),
    {
        self.data.extend_from_slice(bytes);
        let ghost full = self.data@;
        assert(full == old(self)@ + bytes@);
        let n = self.data.len();
        let mut frames: Vec<RawFrame> = Vec::new();
        let mut pos: usize = 0;
        let mut keep_from: usize = 0;
        assert(full.skip(0) == full);
        assert(frame_views(frames@) + frames_in(full) == frames_in(full));
        loop
            invariant_except_break
                pos <= n,
                frames_in(full) == frame_views(frames@) + frames_in(full.skip(pos as int)),
                remainder(full) == remainder(full.skip(pos as int)),
            invariant
                self.data@ == full,
                n == full.len(),
            ensures
                keep_from <= n,
                frames_in(full) == frame_views(frames@),
                remainder(full) == full.skip(keep_from as int),
            decreases n - pos,
        {
            let ghost cur = full.skip(pos as int);
            let start = find_byte(&self.data, pos, START_MARKER);
            if start == n {
                keep_from = pos;
                assert(frame_views(frames@) + Seq::<Seq<u8>>::empty() == frame_views(frames@));
                break;
            }
            let ghost tail = cur.skip(start - pos);
            assert(tail == full.skip(start as int));
            let end = find_byte(&self.data, start, END_MARKER);
            if end == n {
                keep_from = start;
                assert(frame_views(frames@) + Seq::<Seq<u8>>::empty() == frame_views(frames@));
                break;
            }
            proof {
                lemma_first_index(cur, START_MARKER);
                lemma_first_index(tail, END_MARKER);
            }
            let ghost cut = tail.take(end - start + 1);
            assert(tail.skip(end - start + 1) == full.skip(end + 1));
            assert(cut == full.subrange(start as int, end + 1));
            let piece = slice_to_vec(slice_subrange(self.data.as_slice(), start, end + 1));
            let ghost before = frame_views(frames@);
            frames.push(RawFrame { bytes: piece });
            assert(frame_views(frames@) == before.push(cut));
            assert(before + (seq![cut] + frames_in(full.skip(end + 1))) == before.push(cut)
                + frames_in(full.skip(end + 1)));
            pos = end + 1;
        }
        let rest = self.data.split_off(keep_from);
        self.data = rest;
        assert(self.data@ == full.skip(keep_from as int));
        frames
    }
}

} // verus!
