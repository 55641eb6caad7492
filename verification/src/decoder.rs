//! Field decoding: from one raw frame to a record of named text fields.
//!
//! The body of a frame is read as labelled values. The token of a label is
//! its name and the separator; the value of a label is the text behind the
//! first occurrence of its token, up to the next token of any label or to the
//! end of the body. Nothing is checked about a value: it is text.

use crate::clock::{clock_text, is_clock_text};
use crate::frame::{is_frame, RawFrame};
use crate::record::{
    field_text, field_texts, joined_fields, label_name, label_token, record_line, SensorRecord,
    LABEL_COUNT,
};
use crate::text::{chars_between, chars_of, string_between, text_of};
use vstd::prelude::*;
use vstd::string::*;

verus! {

/// Whether `token` stands in `text` at position `at`. An empty token stands
/// nowhere.
pub open spec fn stands_at(text: Seq<char>, token: Seq<char>, at: int) -> bool {
    &&& token.len() > 0
    &&& 0 <= at
    &&& at + token.len() <= text.len()
    &&& text.subrange(at, at + token.len()) == token
}

/// The first position at or after `from` where `token` stands in `text`.
pub open spec fn find_from(text: Seq<char>, token: Seq<char>, from: int) -> Option<int>
    decreases text.len() - from,
{
    if from < 0 || from >= text.len() {
        None
    } else if stands_at(text, token, from) {
        Some(from)
    } else {
        find_from(text, token, from + 1)
    }
}

/// Whether the token of some label stands in `text` at position `at`.
pub open spec fn token_at(text: Seq<char>, at: int) -> bool {
    exists|label: int| 0 <= label < LABEL_COUNT && stands_at(text, #[trigger] label_token(label), at)
}

/// Where a value that begins at `from` ends: at the first token of any
/// label behind it, or at the end of the text.
pub open spec fn value_end(text: Seq<char>, from: int) -> int
    decreases text.len() - from,
{
    if from < 0 || from >= text.len() {
        text.len() as int
    } else if token_at(text, from) {
        from
    } else {
        value_end(text, from + 1)
    }
}

/// The value of the field `label` in `text`: what stands between the first
/// occurrence of the label's token and the end of the value. A label whose
/// token stands nowhere has no value.
pub open spec fn field_of(text: Seq<char>, label: int) -> Option<Seq<char>> {
    match find_from(text, label_token(label), 0) {
        Some(at) => {
            let begin = at + label_token(label).len();
            Some(text.subrange(begin, value_end(text, begin)))
        },
        None => None,
    }
}

/// The fields of `text`, one for each label, in table order.
pub open spec fn fields_of(text: Seq<char>) -> Seq<Option<Seq<char>>> {
    Seq::new(LABEL_COUNT as nat, |label: int| field_of(text, label))
}

/// The text between the two markers of a frame.
pub open spec fn body_text(frame: Seq<u8>) -> Seq<char> {
    text_of(frame.subrange(1, frame.len() - 1))
}

/// The fields that a frame decodes to.
pub open spec fn decode_fields(frame: Seq<u8>) -> Seq<Option<Seq<char>>> {
    fields_of(body_text(frame))
}

/// What `find_from` returns: the token stands at the position found and at
/// no position between `from` and it; where nothing is found the token
/// stands nowhere from `from` on.
pub proof fn lemma_find_from(text: Seq<char>, token: Seq<char>, from: int)
    requires
        0 <= from,
    ensures
        match find_from(text, token, from) {
            Some(at) => {
                &&& from <= at
                &&& stands_at(text, token, at)
                &&& forall|p: int| from <= p < at ==> !stands_at(text, token, p)
            },
            None => forall|p: int| from <= p ==> !stands_at(text, token, p),
        },
    decreases text.len() - from,
{
    if from < text.len() && !stands_at(text, token, from) {
        lemma_find_from(text, token, from + 1);
    }
}

/// What `value_end` returns: it lies between `from` and the end of the text,
/// no token stands between `from` and it, and one stands at it unless it is
/// the end of the text.
pub proof fn lemma_value_end(text: Seq<char>, from: int)
    requires
        0 <= from <= text.len(),
    ensures
        from <= value_end(text, from) <= text.len(),
        forall|p: int| from <= p < value_end(text, from) ==> !token_at(text, p),
        value_end(text, from) < text.len() ==> token_at(text, value_end(text, from)),
    decreases text.len() - from,
{
    if from < text.len() && !token_at(text, from) {
        lemma_value_end(text, from + 1);
    }
}

/// `value_end` is the only position with the properties of
/// `lemma_value_end`.
pub proof fn lemma_value_end_unique(text: Seq<char>, from: int, end: int)
    requires
        0 <= from <= end <= text.len(),
        forall|p: int| from <= p < end ==> !token_at(text, p),
        end < text.len() ==> token_at(text, end),
    ensures
        value_end(text, from) == end,
    decreases end - from,
{
    if from < end {
        lemma_value_end_unique(text, from + 1, end);
    }
}

/// No value holds the token of a label: decoding strips every label from
/// what it takes as values.
pub proof fn lemma_values_hold_no_token(text: Seq<char>, label: int, other: int, at: int)
    requires
        0 <= label < LABEL_COUNT,
        0 <= other < LABEL_COUNT,
        field_of(text, label) is Some,
    ensures
        !stands_at(field_of(text, label)->0, label_token(other), at),
{
    let token = label_token(label);
    lemma_find_from(text, token, 0);
    let begin = find_from(text, token, 0)->0 + token.len();
    let end = value_end(text, begin);
    lemma_value_end(text, begin);
    let value = text.subrange(begin, end);
    let needle = label_token(other);
    if stands_at(value, needle, at) {
        assert(text.subrange(begin + at, begin + at + needle.len()) == value.subrange(
            at,
            at + needle.len(),
        ));
        assert(stands_at(text, needle, begin + at));
        assert(token_at(text, begin + at));
    }
}

/// Every frame decodes to one field for each label of the table.
pub proof fn lemma_field_count(frame: Seq<u8>)
    ensures
        decode_fields(frame).len() == LABEL_COUNT,
{
}

/// A frame with nothing between its markers decodes, without failing, to a
/// record in which no field has a value; its line holds the time alone.
pub proof fn lemma_empty_frame(frame: Seq<u8>, timestamp: Seq<char>)
    requires
        is_frame(frame),
        frame.len() == 2,
    ensures
        decode_fields(frame).len() == LABEL_COUNT,
        forall|label: int| 0 <= label < LABEL_COUNT ==> decode_fields(frame)[label] is None,
        record_line(timestamp, decode_fields(frame)) == timestamp + seq!['\n'],
{
    reveal_with_fuel(joined_fields, 8);
    assert(body_text(frame) =~= Seq::<char>::empty());
    assert(decode_fields(frame) =~= seq![None, None, None, None, None, None, None]);
    assert(timestamp + Seq::<char>::empty() == timestamp);
}

/// The characters of the token of field `label`.
fn token_chars(label: usize) -> (token: Vec<char>)
    requires
        label < LABEL_COUNT,
    ensures
        token@ == label_token(label as int),
{
    let mut token = chars_of(label_name(label));
    let mut separator = chars_of(" : ");
    token.append(&mut separator);
    token
}

/// Whether `token` stands in `text` at position `at`.
fn token_stands_at(text: &Vec<char>, token: &Vec<char>, at: usize) -> (yes: bool)
    requires
        0 < token.len(),
        at + token.len() <= text.len(),
    ensures
        yes == stands_at(text@, token@, at as int),
{
    let mut k: usize = 0;
    while k < token.len()
        invariant
            k <= token.len(),
            at + token.len() <= text.len(),
            forall|j: int| 0 <= j < k ==> text@[at + j] == token@[j],
        decreases token.len() - k,
    {
        if text[at + k] != token[k] {
            assert(text@.subrange(at as int, at + token.len())[k as int] != token@[k as int]);
            return false;
        }
        k += 1;
    }
    assert(text@.subrange(at as int, at + token.len()) =~= token@);
    true
}

/// The first position at or after `from` where `token` stands in `text`.
fn find_token(text: &Vec<char>, token: &Vec<char>, from: usize) -> (found: Option<usize>)
    requires
        from <= text.len(),
    ensures
        match found {
            Some(at) => find_from(text@, token@, from as int) == Some(at as int) && from <= at
                && at + token.len() <= text.len(),
            None => find_from(text@, token@, from as int) is None,
        },
{
    let n = text.len();
    let m = token.len();
    let mut at: usize = from;
    while at < n
        invariant
            from <= at <= n,
            n == text.len(),
            m == token.len(),
            find_from(text@, token@, at as int) == find_from(text@, token@, from as int),
        decreases n - at,
    {
        if 0 < m && m <= n - at && token_stands_at(text, token, at) {
            return Some(at);
        }
        at += 1;
    }
    None
}

/// Where a value that begins at `from` ends.
fn find_value_end(text: &Vec<char>, from: usize) -> (end: usize)
    requires
        from <= text.len(),
    ensures
        end == value_end(text@, from as int),
        from <= end <= text.len(),
{
    let mut end: usize = text.len();
    let mut label: usize = 0;
    while label < LABEL_COUNT
        invariant
            label <= LABEL_COUNT,
            from <= end <= text.len(),
            forall|l: int, p: int|
                0 <= l < label && from <= p < end ==> !#[trigger] stands_at(
                    text@,
                    label_token(l),
                    p,
                ),
            end < text.len() ==> token_at(text@, end as int),
        decreases LABEL_COUNT - label,
    {
        let token = token_chars(label);
        proof {
            lemma_find_from(text@, token@, from as int);
        }
        match find_token(text, &token, from) {
            Some(at) => {
                if at < end {
                    end = at;
                }
            },
            None => {},
        }
        label += 1;
    }
    proof {
        lemma_value_end_unique(text@, from as int, end as int);
    }
    end
}

/// The fields of `text`, one for each label of the table.
fn read_fields(text: &Vec<char>) -> (fields: Vec<Option<String>>)
    ensures
        field_texts(fields@) == fields_of(text@),
        fields.len() == LABEL_COUNT,
{
    let mut fields: Vec<Option<String>> = Vec::new();
    let mut label: usize = 0;
    while label < LABEL_COUNT
        invariant
            label <= LABEL_COUNT,
            fields.len() == label,
            forall|l: int| 0 <= l < label ==> field_text(#[trigger] fields@[l]) == field_of(text@, l),
        decreases LABEL_COUNT - label,
    {
        let token = token_chars(label);
        match find_token(text, &token, 0) {
            Some(at) => {
                let begin = at + token.len();
                let end = find_value_end(text, begin);
                fields.push(Some(string_between(text, begin, end)));
            },
            None => {
                fields.push(None);
            },
        }
        label += 1;
    }
    assert(field_texts(fields@) =~= fields_of(text@));
    fields
}

/// Decodes `frame` into a record that carries `timestamp` as its time.
///
/// Decoding never fails: whatever stands behind a label is taken as its
/// value, and a frame without labels gives a record without values.
pub fn decode_at(frame: &RawFrame, timestamp: &str) -> (record: SensorRecord)
    ensures
        record@.timestamp == timestamp@,
        record@.fields == decode_fields(frame@),
{
    let bytes = frame.as_bytes();
    let text = chars_between(bytes, 1, bytes.len() - 1);
    let fields = read_fields(&text);
    SensorRecord::from_parts(String::from_str(timestamp), fields)
}

/// Decodes `frame` into a record that carries the time of day at which it
/// was decoded.
pub fn decode(frame: &RawFrame) -> (record: SensorRecord)
    ensures
        is_clock_text(record@.timestamp),
        record@.fields == decode_fields(frame@),
{
    let now = clock_text();
    decode_at(frame, now.as_str())
}

} // verus!
