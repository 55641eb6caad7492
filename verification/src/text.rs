//! Small helpers that move text between `String`, `Vec<char>` and bytes.

use vstd::prelude::*;
use vstd::string::*;

verus! {

/// `String::push` of the standard library: appends one character to the end
/// of the string and leaves what stood before it unchanged.
pub assume_specification[ String::push ](s: &mut String, ch: char)
    ensures
        final(s)@ == old(s)@.push(ch),
;

/// A byte read as the character with the same code point.
pub open spec fn char_of(b: u8) -> char {
    b as char
}

/// Bytes read as text, each byte as the character with the same code point.
pub open spec fn text_of(bytes: Seq<u8>) -> Seq<char> {
    bytes.map_values(|b: u8| char_of(b))
}

/// The characters of `bytes[from..to]`.
pub(crate) fn chars_between(bytes: &Vec<u8>, from: usize, to: usize) -> (chars: Vec<char>)
    requires
        from <= to <= bytes.len(),
    ensures
        chars@ == text_of(bytes@.subrange(from as int, to as int)),
{
    let mut chars: Vec<char> = Vec::new();
    let mut i: usize = from;
    while i < to
        invariant
            from <= i <= to <= bytes.len(),
            chars@ == text_of(bytes@.subrange(from as int, i as int)),
        decreases to - i,
    {
        let c: char = bytes[i] as char;
        chars.push(c);
        i += 1;
        assert(chars@ == text_of(bytes@.subrange(from as int, i as int)));
    }
    chars
}

/// The characters of `s`, one by one.
pub(crate) fn chars_of(s: &str) -> (chars: Vec<char>)
    ensures
        chars@ == s@,
{
    let n = s.unicode_len();
    let mut chars: Vec<char> = Vec::new();
    let mut i: usize = 0;
    while i < n
        invariant
            i <= n == s@.len(),
            chars@ == s@.take(i as int),
        decreases n - i,
    {
        chars.push(s.get_char(i));
        i += 1;
        assert(chars@ == s@.take(i as int));
    }
    assert(s@.take(n as int) == s@);
    chars
}

/// The text `chars[from..to]` as a string.
pub(crate) fn string_between(chars: &Vec<char>, from: usize, to: usize) -> (s: String)
    requires
        from <= to <= chars.len(),
    ensures
        s@ == chars@.subrange(from as int, to as int),
{
    let mut s = String::new();
    let mut i: usize = from;
    while i < to
        invariant
            from <= i <= to <= chars.len(),
            s@ == chars@.subrange(from as int, i as int),
        decreases to - i,
    {
        s.push(chars[i]);
        i += 1;
        assert(s@ == chars@.subrange(from as int, i as int));
    }
    s
}

} // verus!
