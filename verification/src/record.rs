//! The record that one frame decodes to, and the line that stores it.

use vstd::prelude::*;
use vstd::string::*;

verus! {

/// The number of fields in a record.
pub const LABEL_COUNT: usize = 7;

/// The name of each field, in the order of the record.
pub open spec fn label_text(label: int) -> Seq<char> {
    if label == 0 {
        "MQ3"@
    } else if label == 1 {
        "MQ5"@
    } else if label == 2 {
        "MQ131"@
    } else if label == 3 {
        "MQ135"@
    } else if label == 4 {
        "MP503"@
    } else if label == 5 {
        "Temperature"@
    } else {
        "Humidity"@
    }
}

/// What the device writes between a field's name and its value.
pub open spec fn label_separator() -> Seq<char> {
    " : "@
}

/// The text that announces a field inside a frame: its name and the
/// separator.
pub open spec fn label_token(label: int) -> Seq<char> {
    label_text(label) + label_separator()
}

/// The header of a recording: the name of the time column and of each
/// field, separated by commas, and a line end.
pub open spec fn header_text() -> Seq<char> {
    "Time,MQ3,MQ5,MQ131,MQ135,MP503,Temperature,Humidity\n"@
}

/// The names of the first `count` fields, each behind a comma.
pub open spec fn joined_names(count: nat) -> Seq<char>
    decreases count,
{
    if count == 0 {
        Seq::empty()
    } else {
        joined_names((count - 1) as nat) + seq![','] + label_text(count - 1)
    }
}

/// The header names the time column and then every field of the label
/// table, in table order.
pub proof fn lemma_header_names_fields()
    ensures
        header_text() == "Time"@ + joined_names(LABEL_COUNT as nat) + seq!['\n'],
{
    reveal_with_fuel(joined_names, 8);
    reveal_strlit("Time,MQ3,MQ5,MQ131,MQ135,MP503,Temperature,Humidity\n");
    reveal_strlit("Time");
    reveal_strlit("MQ3");
    reveal_strlit("MQ5");
    reveal_strlit("MQ131");
    reveal_strlit("MQ135");
    reveal_strlit("MP503");
    reveal_strlit("Temperature");
    reveal_strlit("Humidity");
    assert(header_text() =~= "Time"@ + joined_names(LABEL_COUNT as nat) + seq!['\n']);
}

/// The name of field `label`.
pub fn label_name(label: usize) -> (name: &'static str)
    requires
        label < LABEL_COUNT,
    ensures
        name@ == label_text(label as int),
{
    if label == 0 {
        "MQ3"
    } else if label == 1 {
        "MQ5"
    } else if label == 2 {
        "MQ131"
    } else if label == 3 {
        "MQ135"
    } else if label == 4 {
        "MP503"
    } else if label == 5 {
        "Temperature"
    } else {
        "Humidity"
    }
}

/// The header of a recording.
pub fn header_line() -> (header: String)
    ensures
        header@ == header_text(),
{
    String::from_str("Time,MQ3,MQ5,MQ131,MQ135,MP503,Temperature,Humidity\n")
}

/// The text of a field, if it has any.
pub open spec fn field_text(field: Option<String>) -> Option<Seq<char>> {
    match field {
        Some(value) => Some(value@),
        None => None,
    }
}

/// The texts of a list of fields.
pub open spec fn field_texts(fields: Seq<Option<String>>) -> Seq<Option<Seq<char>>> {
    fields.map_values(|f: Option<String>| field_text(f))
}

/// What a field adds to the line of its record: a comma and its text if it
/// has a value, nothing if it has none.
pub open spec fn field_piece(field: Option<Seq<char>>) -> Seq<char> {
    match field {
        Some(value) => seq![','] + value,
        None => Seq::empty(),
    }
}

/// The values of a record as they stand in its line, each behind a comma.
pub open spec fn joined_fields(fields: Seq<Option<Seq<char>>>) -> Seq<char>
    decreases fields.len(),
{
    if fields.len() == 0 {
        Seq::empty()
    } else {
        joined_fields(fields.drop_last()) + field_piece(fields.last())
    }
}

/// The line that stores a record: the time, the values, a line end.
pub open spec fn record_line(timestamp: Seq<char>, fields: Seq<Option<Seq<char>>>) -> Seq<char> {
    timestamp + joined_fields(fields) + seq!['\n']
}

/// A record as contracts see it.
pub struct RecordText {
    /// The time of day at which the record was decoded.
    pub timestamp: Seq<char>,
    /// The text of each field in table order, `None` where the frame did not
    /// name the field.
    pub fields: Seq<Option<Seq<char>>>,
}

/// One decoded sensor report: the time at which it was decoded and the text
/// of each field of the label table.
#[derive(Debug)]
pub struct SensorRecord {
    timestamp: String,
    fields: Vec<Option<String>>,
}

impl View for SensorRecord {
    type V = RecordText;

    closed spec fn view(&self) -> RecordText {
        RecordText { timestamp: self.timestamp@, fields: field_texts(self.fields@) }
    }
}

impl SensorRecord {
    #[verifier::type_invariant]
    spec fn well_formed(self) -> bool {
        self.fields.len() == LABEL_COUNT
    }

    /// A record of the given time and fields.
    pub(crate) fn from_parts(timestamp: String, fields: Vec<Option<String>>) -> (record:
        SensorRecord)
        requires
            fields.len() == LABEL_COUNT,
        ensures
            record@.timestamp == timestamp@,
            record@.fields == field_texts(fields@),
    {
        SensorRecord { timestamp, fields }
    }

    /// A record of the given time and fields, if there is one field for each
    /// label of the table.
    pub fn new(timestamp: String, fields: Vec<Option<String>>) -> (record: Option<SensorRecord>)
        ensures
            record is Some <==> fields.len() == LABEL_COUNT,
            record matches Some(r) ==> r@.timestamp == timestamp@ && r@.fields == field_texts(
                fields@,
            ),
    {
        if fields.len() == LABEL_COUNT {
            Some(SensorRecord { timestamp, fields })
        } else {
            None
        }
    }

    /// The time of day at which the record was decoded.
    pub fn timestamp(&self) -> (timestamp: &String)
        ensures
            timestamp@ == self@.timestamp,
    {
        &self.timestamp
    }

    /// The fields in table order; there is one for each label.
    pub fn fields(&self) -> (fields: &Vec<Option<String>>)
        ensures
            field_texts(fields@) == self@.fields,
            fields.len() == LABEL_COUNT,
    {
        proof {
            use_type_invariant(self);
        }
        &self.fields
    }

    /// The line that stores the record.
    pub fn line(&self) -> (line: String)
        ensures
            line@ == record_line(self@.timestamp, self@.fields),
    {
        let mut line = self.timestamp.clone();
        let ghost all = field_texts(self.fields@);
        let mut i: usize = 0;
        assert(all.take(0) == Seq::<Option<Seq<char>>>::empty());
        while i < self.fields.len()
            invariant
                i <= self.fields.len(),
                all == field_texts(self.fields@),
                line@ == self.timestamp@ + joined_fields(all.take(i as int)),
            decreases self.fields.len() - i,
        {
            let ghost so_far = line@;
            match &self.fields[i] {
                Some(value) => {
                    line.push(',');
                    line.append(value.as_str());
                    assert(line@ == so_far + (seq![','] + value@));
                },
                None => {
                    assert(line@ == so_far + Seq::<char>::empty());
                },
            }
            assert(all.take(i + 1).drop_last() == all.take(i as int));
            assert(all.take(i + 1).last() == field_text(self.fields@[i as int]));
            i += 1;
        }
        assert(all.take(i as int) == all);
        line.push('\n');
        line
    }
}

} // verus!
