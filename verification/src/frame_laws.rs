//! What holds of frame extraction for every byte stream.

use crate::frame::{
    first_index, frames_in, is_frame, lemma_first_index, lemma_first_index_unique, remainder,
    END_MARKER, START_MARKER,
};
use vstd::prelude::*;

verus! {

/// A buffer after an extraction pass: either it holds no start marker, or it
/// begins with one and holds no end marker.
pub open spec fn is_settled(buf: Seq<u8>) -> bool {
    ||| forall|i: int| 0 <= i < buf.len() ==> buf[i] != START_MARKER
    ||| buf.len() > 0 && buf[0] == START_MARKER && forall|i: int|
        0 <= i < buf.len() ==> buf[i] != END_MARKER
}

/// Every byte sequence that a pass emits is a complete frame: it begins with
/// the start marker and ends with the only end marker it holds.
pub proof fn lemma_emitted_are_frames(buf: Seq<u8>)
    ensures
        forall|i: int| 0 <= i < frames_in(buf).len() ==> is_frame(#[trigger] frames_in(buf)[i]),
    decreases buf.len(),
{
    let start = first_index(buf, START_MARKER) as int;
    let tail = buf.skip(start);
    let end = first_index(tail, END_MARKER) as int;
    lemma_first_index(buf, START_MARKER);
    lemma_first_index(tail, END_MARKER);
    if start < buf.len() && end < tail.len() {
        let cut = tail.take(end + 1);
        let rest = tail.skip(end + 1);
        lemma_emitted_are_frames(rest);
        assert(tail[0] == START_MARKER);
        assert(is_frame(cut));
        assert forall|i: int| 0 <= i < frames_in(buf).len() implies is_frame(
            #[trigger] frames_in(buf)[i],
        ) by {
            if i > 0 {
                assert(frames_in(buf)[i] == frames_in(rest)[i - 1]);
            }
        }
    }
}

/// A pass begins its work at the first start marker: what stands before it
/// has no part in the result.
pub proof fn lemma_pass_begins_at_start(buf: Seq<u8>)
    requires
        first_index(buf, START_MARKER) < buf.len(),
    ensures
        frames_in(buf) == frames_in(buf.skip(first_index(buf, START_MARKER) as int)),
        remainder(buf) == remainder(buf.skip(first_index(buf, START_MARKER) as int)),
{
    let start = first_index(buf, START_MARKER) as int;
    let tail = buf.skip(start);
    lemma_first_index(buf, START_MARKER);
    lemma_first_index_unique(tail, START_MARKER, 0);
    assert(tail.skip(0) == tail);
}

/// A complete frame at the head of the buffer is emitted as it stands, and
/// the pass goes on with what follows it.
pub proof fn lemma_frame_at_head(frame: Seq<u8>, rest: Seq<u8>)
    requires
        is_frame(frame),
    ensures
        frames_in(frame + rest) == seq![frame] + frames_in(rest),
        remainder(frame + rest) == remainder(rest),
{
    let buf = frame + rest;
    lemma_first_index_unique(buf, START_MARKER, 0);
    assert(buf.skip(0) == buf);
    lemma_first_index_unique(buf, END_MARKER, frame.len() - 1);
    assert(buf.take(frame.len() as int) == frame);
    assert(buf.skip(frame.len() as int) == rest);
}

/// Frames that stand back to back, with nothing between them, all come out
/// of a single pass, in order, and the pass leaves nothing behind.
pub proof fn lemma_back_to_back(frames: Seq<Seq<u8>>)
    requires
        forall|i: int| 0 <= i < frames.len() ==> is_frame(#[trigger] frames[i]),
    ensures
        frames_in(frames.flatten()) == frames,
        remainder(frames.flatten()) == Seq::<u8>::empty(),
    decreases frames.len(),
{
    if frames.len() == 0 {
        assert(frames.flatten() == Seq::<u8>::empty());
        assert(frames_in(frames.flatten()) == frames);
    } else {
        let others = frames.drop_first();
        assert forall|i: int| 0 <= i < others.len() implies is_frame(#[trigger] others[i]) by {
            assert(others[i] == frames[i + 1]);
        }
        lemma_back_to_back(others);
        lemma_frame_at_head(frames[0], others.flatten());
        assert(seq![frames[0]] + others == frames);
    }
}

/// A start marker that no end marker follows is never emitted: the pass
/// emits nothing and keeps the unfinished frame from its start marker on.
pub proof fn lemma_open_frame_waits(buf: Seq<u8>)
    requires
        first_index(buf, START_MARKER) < buf.len(),
        forall|i: int| first_index(buf, START_MARKER) <= i < buf.len() ==> buf[i] != END_MARKER,
    ensures
        frames_in(buf) == Seq::<Seq<u8>>::empty(),
        remainder(buf) == buf.skip(first_index(buf, START_MARKER) as int),
{
    let start = first_index(buf, START_MARKER) as int;
    let tail = buf.skip(start);
    lemma_first_index_unique(tail, END_MARKER, tail.len() as int);
}

/// While the buffer holds no start marker a pass emits nothing and leaves
/// the buffer as it is.
pub proof fn lemma_no_start_no_change(buf: Seq<u8>)
    requires
        forall|i: int| 0 <= i < buf.len() ==> buf[i] != START_MARKER,
    ensures
        frames_in(buf) == Seq::<Seq<u8>>::empty(),
        remainder(buf) == buf,
{
    lemma_first_index_unique(buf, START_MARKER, buf.len() as int);
}

/// Feeding a stream in two pieces gives the frames, and leaves the buffer,
/// that feeding it in one piece gives: a frame cut in two by the transport
/// is kept until its end marker arrives and is then emitted whole.
pub proof fn lemma_pieces_add_up(first: Seq<u8>, second: Seq<u8>)
    ensures
        frames_in(first + second) == frames_in(first) + frames_in(remainder(first) + second),
        remainder(first + second) == remainder(remainder(first) + second),
    decreases first.len(),
{
    let whole = first + second;
    let start = first_index(first, START_MARKER) as int;
    lemma_first_index(first, START_MARKER);
    if start >= first.len() {
        assert(frames_in(first) + frames_in(whole) == frames_in(whole));
    } else {
        let tail = first.skip(start);
        let end = first_index(tail, END_MARKER) as int;
        lemma_first_index(tail, END_MARKER);
        lemma_first_index_unique(whole, START_MARKER, start);
        assert(whole.skip(start) == tail + second);
        if end >= tail.len() {
            lemma_pass_begins_at_start(whole);
            assert(frames_in(first) + frames_in(tail + second) == frames_in(tail + second));
        } else {
            let cut = tail.take(end + 1);
            let rest = tail.skip(end + 1);
            lemma_first_index_unique(tail + second, END_MARKER, end);
            assert((tail + second).take(end + 1) == cut);
            assert((tail + second).skip(end + 1) == rest + second);
            lemma_pieces_add_up(rest, second);
            assert(seq![cut] + (frames_in(rest) + frames_in(remainder(rest) + second)) == (seq![
                cut,
            ] + frames_in(rest)) + frames_in(remainder(rest) + second));
        }
    }
}

/// Bytes that stand before the first start marker are dropped by the pass
/// that sees the marker: they reach neither a frame nor the buffer, and the
/// result is that of the stream without them.
pub proof fn lemma_leading_bytes_dropped(junk: Seq<u8>, rest: Seq<u8>)
    requires
        forall|i: int| 0 <= i < junk.len() ==> junk[i] != START_MARKER,
        rest.contains(START_MARKER),
    ensures
        frames_in(junk + rest) == frames_in(rest),
        remainder(junk + rest) == remainder(rest),
{
    let buf = junk + rest;
    let start = first_index(rest, START_MARKER) as int;
    lemma_first_index(rest, START_MARKER);
    let k = choose|k: int| 0 <= k < rest.len() && rest[k] == START_MARKER;
    assert(start <= k);
    lemma_first_index_unique(buf, START_MARKER, junk.len() + start);
    assert(buf.skip(junk.len() + start) == rest.skip(start));
    lemma_pass_begins_at_start(buf);
    lemma_pass_begins_at_start(rest);
}

/// What a pass leaves behind is settled: a second pass over it emits
/// nothing and changes nothing.
pub proof fn lemma_remainder_settled(buf: Seq<u8>)
    ensures
        is_settled(remainder(buf)),
        frames_in(remainder(buf)) == Seq::<Seq<u8>>::empty(),
        remainder(remainder(buf)) == remainder(buf),
    decreases buf.len(),
{
    let start = first_index(buf, START_MARKER) as int;
    let tail = buf.skip(start);
    let end = first_index(tail, END_MARKER) as int;
    lemma_first_index(buf, START_MARKER);
    lemma_first_index(tail, END_MARKER);
    if start >= buf.len() {
        lemma_no_start_no_change(buf);
    } else if end >= tail.len() {
        lemma_first_index_unique(tail, START_MARKER, 0);
        assert(tail.skip(0) == tail);
        lemma_open_frame_waits(tail);
    } else {
        lemma_remainder_settled(tail.skip(end + 1));
    }
}

} // verus!
