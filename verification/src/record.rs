//! Decoded records: an ordered mapping from field names to values. A name
//! occurs once; writing a name again replaces its value where it stands.

use vstd::prelude::*;
use crate::catalog::{decoded_field, decode_field, FieldDef, FieldValue};
use crate::pattern::same_text;

verus! {

/// One entry of a record.
#[derive(Clone, Debug)]
pub struct DecodedField {
    pub name: String,
    pub value: FieldValue,
}

/// No name occurs at two positions.
pub open spec fn names_distinct(record: Seq<(Seq<char>, FieldValue)>) -> bool {
    forall|i: int, j: int|
        0 <= i < j < record.len() ==> (#[trigger] record[i]).0 != (#[trigger] record[j]).0
}

/// Some entry has the name `name`.
pub open spec fn has_name(record: Seq<(Seq<char>, FieldValue)>, name: Seq<char>) -> bool {
    exists|i: int| 0 <= i < record.len() && (#[trigger] record[i]).0 == name
}

/// The record after `name` has been given `value`: the entry of that name is
/// replaced in place, or, if there is none, a new entry is added at the end.
pub open spec fn record_insert(
    record: Seq<(Seq<char>, FieldValue)>,
    name: Seq<char>,
    value: FieldValue,
) -> Seq<(Seq<char>, FieldValue)> {
    if has_name(record, name) {
        let at = choose|i: int| 0 <= i < record.len() && (#[trigger] record[i]).0 == name;
        record.update(at, (name, value))
    } else {
        record.push((name, value))
    }
}

/// The record that a field map yields on `payload`: its entries are decoded
/// in order, and those that yield no value are passed over.
pub open spec fn decoded_record(map: Seq<FieldDef>, payload: Seq<u8>) -> Seq<
    (Seq<char>, FieldValue),
>
    decreases map.len(),
{
    if map.len() == 0 {
        Seq::empty()
    } else {
        let before = decoded_record(map.drop_last(), payload);
        match decoded_field(map.last(), payload) {
            Ok(value) => record_insert(before, map.last().field_name@, value),
            Err(_) => before,
        }
    }
}

/// Writing a name keeps the names distinct.
pub proof fn lemma_insert_keeps_names_distinct(
    record: Seq<(Seq<char>, FieldValue)>,
    name: Seq<char>,
    value: FieldValue,
)
    requires
        names_distinct(record),
    ensures
        names_distinct(record_insert(record, name, value)),
        has_name(record_insert(record, name, value), name),
{
    let after = record_insert(record, name, value);
    if has_name(record, name) {
        let at = choose|i: int| 0 <= i < record.len() && (#[trigger] record[i]).0 == name;
        assert(after[at].0 == name);
    } else {
        assert(after[record.len() as int].0 == name);
    }
}

/// Whatever the field map and the payload, the record that they yield holds
/// each name once.
pub proof fn lemma_decoded_record_names_distinct(map: Seq<FieldDef>, payload: Seq<u8>)
    ensures
        names_distinct(decoded_record(map, payload)),
    decreases map.len(),
{
    if map.len() > 0 {
        lemma_decoded_record_names_distinct(map.drop_last(), payload);
        match decoded_field(map.last(), payload) {
            Ok(value) => {
                lemma_insert_keeps_names_distinct(
                    decoded_record(map.drop_last(), payload),
                    map.last().field_name@,
                    value,
                );
            },
            Err(_) => {},
        }
    }
}

/// A decoded record.
pub struct DecodedRecord {
    fields: Vec<DecodedField>,
}

impl View for DecodedRecord {
    type V = Seq<(Seq<char>, FieldValue)>;

    closed spec fn view(&self) -> Seq<(Seq<char>, FieldValue)> {
        self.fields@.map_values(|field: DecodedField| (field.name@, field.value))
    }
}

impl DecodedRecord {
    /// The record holds each name once.
    pub open spec fn wf(&self) -> bool {
        names_distinct(self@)
    }

    /// The empty record.
    pub fn new() -> (record: DecodedRecord)
        ensures
            record@ == Seq::<(Seq<char>, FieldValue)>::empty(),
            record.wf(),
    {
        let record = DecodedRecord { fields: Vec::new() };
        proof {
            assert(record@ =~= Seq::<(Seq<char>, FieldValue)>::empty());
        }
        record
    }

    /// Number of entries.
    pub fn len(&self) -> (len: usize)
        ensures
            len == self@.len(),
    {
        self.fields.len()
    }

    /// The entries in order.
    pub fn fields(&self) -> (fields: &Vec<DecodedField>)
        ensures
            fields@.len() == self@.len(),
            forall|i: int|
                0 <= i < fields@.len() ==> (#[trigger] fields@[i].name@, fields@[i].value)
                    == self@[i],
    {
        &self.fields
    }

    /// The value that stands under `name`, if the record has that name.
    pub fn get(&self, name: &str) -> (value: Option<FieldValue>)
        ensures
            match value {
                Some(v) => self@.contains((name@, v)),
                None => !has_name(self@, name@),
            },
    {
        let mut i: usize = 0;
        while i < self.fields.len()
            invariant
                i <= self.fields@.len(),
                forall|k: int| 0 <= k < i ==> (#[trigger] self@[k]).0 != name@,
            decreases self.fields@.len() - i,
        {
            if same_text(self.fields[i].name.as_str(), name) {
                assert(self@[i as int] == (name@, self.fields@[i as int].value));
                return Some(self.fields[i].value);
            }
            i += 1;
        }
        None
    }

    /// Gives `name` the value `value`: replaces the entry of that name where
    /// it stands, or adds a new entry at the end.
    pub fn insert(&mut self, name: String, value: FieldValue)
        requires
            old(self).wf(),
        ensures
            final(self)@ == record_insert(old(self)@, name@, value),
            final(self).wf(),
    {
        proof {
            lemma_insert_keeps_names_distinct(self@, name@, value);
        }
        let ghost before = self@;
        let mut i: usize = 0;
        while i < self.fields.len()
            invariant
                i <= self.fields@.len(),
                self@ == before,
                before == old(self)@,
                names_distinct(before),
                forall|k: int| 0 <= k < i ==> (#[trigger] before[k]).0 != name@,
            decreases self.fields@.len() - i,
        {
            if same_text(self.fields[i].name.as_str(), name.as_str()) {
                proof {
                    assert(before[i as int].0 == name@);
                    let at = choose|k: int|
                        0 <= k < before.len() && (#[trigger] before[k]).0 == name@;
                    assert(at == i);
                    assert(self.fields@.update(i as int, DecodedField { name, value }).map_values(
                        |field: DecodedField| (field.name@, field.value),
                    ) =~= before.update(i as int, (name@, value)));
                }
                self.fields.set(i, DecodedField { name, value });
                return ;
            }
            i += 1;
        }
        proof {
            assert(!has_name(before, name@));
            assert(self.fields@.push(DecodedField { name, value }).map_values(
                |field: DecodedField| (field.name@, field.value),
            ) =~= before.push((name@, value)));
        }
        self.fields.push(DecodedField { name, value });
    }

    /// Decodes the entries of `map` on `payload`, in order, into a record.
    /// Entries of an unsupported data type and entries that the payload does
    /// not cover are passed over.
    pub fn decode(map: &Vec<FieldDef>, payload: &[u8]) -> (record: DecodedRecord)
        ensures
            record@ == decoded_record(map@, payload@),
            record.wf(),
    {
        proof {
            lemma_decoded_record_names_distinct(map@, payload@);
        }
        let mut record = DecodedRecord::new();
        let mut i: usize = 0;
        while i < map.len()
            invariant
                i <= map@.len(),
                record.wf(),
                record@ == decoded_record(map@.take(i as int), payload@),
            decreases map@.len() - i,
        {
            proof {
                assert(map@.take(i + 1).drop_last() =~= map@.take(i as int));
            }
            match decode_field(&map[i], payload) {
                Ok(value) => {
                    record.insert(map[i].field_name.clone(), value);
                },
                Err(_) => {},
            }
            i += 1;
        }
        proof {
            assert(map@.take(i as int) =~= map@);
        }
        record
    }
}

} // verus!
