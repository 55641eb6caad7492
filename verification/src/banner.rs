//! The full-width lines of the display: a message centred between two runs
//! of padding.

use crate::text::{chars_of, string_between};
use vstd::prelude::*;

verus! {

/// `unit` written `count` times in a row.
pub open spec fn repeated(unit: Seq<char>, count: nat) -> Seq<char>
    decreases count,
{
    if count == 0 {
        Seq::empty()
    } else {
        repeated(unit, (count - 1) as nat) + unit
    }
}

/// How often the padding is written on each side of a message of `len`
/// characters in a line of `width` characters: once less than half the room
/// that the message leaves.
pub open spec fn padding_count(len: nat, width: nat) -> nat {
    ((width - len) / 2 - 1) as nat
}

/// The line before it is cut to the width: padding, message, padding and
/// the line end.
pub open spec fn padded_text(message: Seq<char>, padding: Seq<char>, width: nat) -> Seq<char> {
    let side = repeated(padding, padding_count(message.len(), width));
    side + message + side + seq!['\r', '\n']
}

/// The line as it is shown: the padded text, cut to `width` characters if it
/// is longer.
pub open spec fn banner_text(message: Seq<char>, padding: Seq<char>, width: nat) -> Seq<char> {
    let full = padded_text(message, padding, width);
    if full.len() > width {
        full.take(width as int)
    } else {
        full
    }
}

/// Appends `unit` to `line`, `count` times.
fn append_repeated(line: &mut Vec<char>, unit: &Vec<char>, count: usize)
    ensures
        final(line)@ == old(line)@ + repeated(unit@, count as nat),
{
    let mut done: usize = 0;
    assert(line@ == old(line)@ + repeated(unit@, 0));
    while done < count
        invariant
            done <= count,
            line@ == old(line)@ + repeated(unit@, done as nat),
        decreases count - done,
    {
        let mut k: usize = 0;
        let ghost before = line@;
        while k < unit.len()
            invariant
                k <= unit.len(),
                line@ == before + unit@.take(k as int),
            decreases unit.len() - k,
        {
            line.push(unit[k]);
            k += 1;
            assert(line@ == before + unit@.take(k as int));
        }
        assert(unit@.take(k as int) == unit@);
        done += 1;
        assert(line@ == old(line)@ + (repeated(unit@, (done - 1) as nat) + unit@));
    }
}

/// A line of `width` characters at most that shows `message` between two
/// equal runs of `padding`, and ends the line.
///
/// The message has to leave room for padding on both sides: it is at least
/// two characters shorter than the line is wide.
pub fn banner_line(message: &str, padding: &str, width: usize) -> (line: String)
    requires
        message@.len() + 2 <= width,
    ensures
        line@ == banner_text(message@, padding@, width as nat),
{
    let text = chars_of(message);
    let unit = chars_of(padding);
    let count: usize = (width - text.len()) / 2 - 1;
    let mut full: Vec<char> = Vec::new();
    append_repeated(&mut full, &unit, count);
    let ghost side = repeated(padding@, count as nat);
    assert(full@ == side);
    let mut k: usize = 0;
    while k < text.len()
        invariant
            k <= text.len(),
            full@ == side + text@.take(k as int),
        decreases text.len() - k,
    {
        full.push(text[k]);
        k += 1;
        assert(full@ == side + text@.take(k as int));
    }
    assert(text@.take(k as int) == text@);
    append_repeated(&mut full, &unit, count);
    full.push('\r');
    full.push('\n');
    assert(full@ == padded_text(message@, padding@, width as nat));
    if full.len() > width {
        let line = string_between(&full, 0, width);
        assert(full@.subrange(0, width as int) == full@.take(width as int));
        line
    } else {
        let line = string_between(&full, 0, full.len());
        assert(full@.subrange(0, full@.len() as int) == full@);
        line
    }
}

} // verus!
