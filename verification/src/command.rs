//! The command line typed at the prompt: the line being edited and what a
//! submitted line asks for.

use crate::text::string_between;
use vstd::prelude::*;

verus! {

/// Whether `c` is white space (the characters that Unicode gives the
/// property `White_Space`).
pub open spec fn is_space(c: char) -> bool {
    let code = c as u32;
    ||| 0x09 <= code <= 0x0d
    ||| code == 0x20
    ||| code == 0x85
    ||| code == 0xa0
    ||| code == 0x1680
    ||| 0x2000 <= code <= 0x200a
    ||| code == 0x2028
    ||| code == 0x2029
    ||| code == 0x202f
    ||| code == 0x205f
    ||| code == 0x3000
}

/// `s` without the white space at its beginning.
pub open spec fn trim_start(s: Seq<char>) -> Seq<char>
    decreases s.len(),
{
    if s.len() > 0 && is_space(s[0]) {
        trim_start(s.drop_first())
    } else {
        s
    }
}

/// `s` without the white space at its end.
pub open spec fn trim_end(s: Seq<char>) -> Seq<char>
    decreases s.len(),
{
    if s.len() > 0 && is_space(s.last()) {
        trim_end(s.drop_last())
    } else {
        s
    }
}

/// `s` without the white space at its beginning and at its end.
pub open spec fn trim(s: Seq<char>) -> Seq<char> {
    trim_end(trim_start(s))
}

/// What a submitted line asks for.
#[derive(Clone, Copy, Debug, PartialEq, Eq, Structural)]
pub enum Command {
    /// Begin recording.
    Start,
    /// End recording.
    Stop,
    /// Forward the line to the device as it was typed.
    Passthrough,
}

/// What the line `s` asks for: `start` and `stop`, with any white space
/// around them, are commands to the session; every other line, the empty
/// one too, goes to the device.
pub open spec fn classify_text(s: Seq<char>) -> Command {
    if trim(s) == "start"@ {
        Command::Start
    } else if trim(s) == "stop"@ {
        Command::Stop
    } else {
        Command::Passthrough
    }
}

/// Whether `c` is white space.
pub fn is_whitespace(c: char) -> (yes: bool)
    ensures
        yes == is_space(c),
{
    let code: u32 = c as u32;
    (0x09 <= code && code <= 0x0d) || code == 0x20 || code == 0x85 || code == 0xa0 || code
        == 0x1680 || (0x2000 <= code && code <= 0x200a) || code == 0x2028 || code == 0x2029
        || code == 0x202f || code == 0x205f || code == 0x3000
}

/// Trimming at the beginning drops exactly the leading white space: `k`
/// characters, if the first `k` are white space and the next one is not.
pub proof fn lemma_trim_start(s: Seq<char>, k: int)
    requires
        0 <= k <= s.len(),
        forall|i: int| 0 <= i < k ==> is_space(s[i]),
        k < s.len() ==> !is_space(s[k]),
    ensures
        trim_start(s) == s.skip(k),
    decreases k,
{
    if k == 0 {
        assert(s.skip(0) == s);
    } else {
        lemma_trim_start(s.drop_first(), k - 1);
        assert(s.drop_first().skip(k - 1) == s.skip(k));
    }
}

/// Trimming at the end drops exactly the trailing white space: all behind
/// the first `k` characters, if those behind are white space and the one
/// before is not.
pub proof fn lemma_trim_end(s: Seq<char>, k: int)
    requires
        0 <= k <= s.len(),
        forall|i: int| k <= i < s.len() ==> is_space(s[i]),
        k > 0 ==> !is_space(s[k - 1]),
    ensures
        trim_end(s) == s.take(k),
    decreases s.len() - k,
{
    if k == s.len() {
        assert(s.take(k) == s);
    } else {
        lemma_trim_end(s.drop_last(), k);
        assert(s.drop_last().take(k) == s.take(k));
    }
}

/// The line that is being typed and has not been submitted yet.
#[derive(Debug)]
pub struct CommandBuffer {
    chars: Vec<char>,
}

impl CommandBuffer {
    /// The characters typed so far, in order.
    pub closed spec fn view(&self) -> Seq<char> {
        self.chars@
    }

    /// An empty line.
    pub fn new() -> (buffer: CommandBuffer)
        ensures
            buffer@ == Seq::<char>::empty(),
    {
        CommandBuffer { chars: Vec::new() }
    }

    /// Appends one character to the line.
    pub fn push(&mut self, c: char)
        ensures
            final(self)@ == old(self)@.push(c),
    {
        self.chars.push(c);
    }

    /// Removes the last character of the line, if it has one.
    pub fn backspace(&mut self)
        ensures
            old(self)@.len() > 0 ==> final(self)@ == old(self)@.drop_last(),
            old(self)@.len() == 0 ==> final(self)@ == old(self)@,
    {
        let _ = self.chars.pop();
    }

    /// Empties the line.
    pub fn clear(&mut self)
        ensures
            final(self)@ == Seq::<char>::empty(),
    {
        self.chars.clear();
    }

    /// The number of characters typed so far.
    pub fn len(&self) -> (n: usize)
        ensures
            n == self@.len(),
    {
        self.chars.len()
    }

    /// The line as it was typed.
    pub fn text(&self) -> (text: String)
        ensures
            text@ == self@,
    {
        let text = string_between(&self.chars, 0, self.chars.len());
        assert(self.chars@.subrange(0, self.chars@.len() as int) == self.chars@);
        text
    }

    /// What the line asks for.
    pub fn classify(&self) -> (command: Command)
        ensures
            command == classify_text(self@),
    {
        let n = self.chars.len();
        let mut lo: usize = 0;
        while lo < n && is_whitespace(self.chars[lo])
            invariant
                lo <= n == self.chars.len(),
                forall|i: int| 0 <= i < lo ==> is_space(self.chars@[i]),
            decreases n - lo,
        {
            lo += 1;
        }
        let mut hi: usize = n;
        while hi > lo && is_whitespace(self.chars[hi - 1])
            invariant
                lo <= hi <= n == self.chars.len(),
                forall|i: int| hi <= i < n ==> is_space(self.chars@[i]),
            decreases hi,
        {
            hi -= 1;
        }
        proof {
            let s = self.chars@;
            lemma_trim_start(s, lo as int);
            lemma_trim_end(s.skip(lo as int), hi - lo);
            assert(s.skip(lo as int).take(hi - lo) == s.subrange(lo as int, hi as int));
            reveal_strlit("start");
            reveal_strlit("stop");
        }
        let ghost word = self.chars@.subrange(lo as int, hi as int);
        assert(word == trim(self@));
        if hi - lo == 5 && self.chars[lo] == 's' && self.chars[lo + 1] == 't' && self.chars[lo + 2]
            == 'a' && self.chars[lo + 3] == 'r' && self.chars[lo + 4] == 't' {
            assert(word =~= "start"@);
            Command::Start
        } else if hi - lo == 4 && self.chars[lo] == 's' && self.chars[lo + 1] == 't'
            && self.chars[lo + 2] == 'o' && self.chars[lo + 3] == 'p' {
            assert(word =~= "stop"@);
            Command::Stop
        } else {
            assert(word != "start"@) by {
                if word.len() == 5 {
                    assert(word[0] == self.chars@[lo + 0]);
                    assert(word[1] == self.chars@[lo + 1]);
                    assert(word[2] == self.chars@[lo + 2]);
                    assert(word[3] == self.chars@[lo + 3]);
                    assert(word[4] == self.chars@[lo + 4]);
                }
            }
            assert(word != "stop"@) by {
                if word.len() == 4 {
                    assert(word[0] == self.chars@[lo + 0]);
                    assert(word[1] == self.chars@[lo + 1]);
                    assert(word[2] == self.chars@[lo + 2]);
                    assert(word[3] == self.chars@[lo + 3]);
                }
            }
            Command::Passthrough
        }
    }
}

} // verus!
