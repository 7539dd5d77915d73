//! One CSV row, labelled by the file's header, and the coercions that read
//! its fields.

use crate::text::{lower_text, same_text, to_lower, trim_text, trimmed};
use vstd::prelude::*;
use vstd::string::*;

verus! {

/// What reading a field's trimmed text as a floating-point number gave:
/// the number rounded to the nearest integer (halves away from zero) and
/// whether it is above zero.
#[derive(Clone, Copy, Debug, PartialEq, Eq)]
pub struct NumberReading {
    pub rounded: i64,
    pub positive: bool,
}

/// One field of a row: its header, its text and, when the trimmed text reads
/// as a number, that reading.
#[derive(Debug, PartialEq, Eq)]
pub struct RowField {
    pub name: String,
    pub value: String,
    pub number: Option<NumberReading>,
}

/// What a row field stands for.
pub struct FieldModel {
    pub name: Seq<char>,
    pub value: Seq<char>,
    pub number: Option<NumberReading>,
}

impl RowField {
    pub open spec fn model(&self) -> FieldModel {
        FieldModel { name: self.name@, value: self.value@, number: self.number }
    }
}

/// A row: header-labelled fields in column order.
#[derive(Debug, PartialEq, Eq)]
pub struct RawRow {
    pub fields: Vec<RowField>,
}

impl View for RawRow {
    type V = Seq<FieldModel>;

    open spec fn view(&self) -> Seq<FieldModel> {
        self.fields@.map_values(|f: RowField| f.model())
    }
}

/// The field a key names: the last one under that header.
pub open spec fn field_for(row: Seq<FieldModel>, key: Seq<char>) -> Option<FieldModel>
    decreases row.len(),
{
    if row.len() == 0 {
        None
    } else if row.last().name == key {
        Some(row.last())
    } else {
        field_for(row.drop_last(), key)
    }
}

/// The trimmed text of a key's field, when the field exists and is not blank.
pub open spec fn present(row: Seq<FieldModel>, key: Seq<char>) -> Option<Seq<char>> {
    match field_for(row, key) {
        Some(f) => if trimmed(f.value).len() > 0 {
            Some(trimmed(f.value))
        } else {
            None
        },
        None => None,
    }
}

/// A key's field as a rounded integer: present and read as a number.
pub open spec fn integer_field(row: Seq<FieldModel>, key: Seq<char>) -> Option<i64> {
    match present(row, key) {
        Some(_) => match field_for(row, key) {
            Some(f) => match f.number {
                Some(n) => Some(n.rounded),
                None => None,
            },
            None => None,
        },
        None => None,
    }
}

/// The truth value a lower-cased word names, if any.
pub open spec fn boolean_word(w: Seq<char>) -> Option<bool> {
    if w == seq!['t', 'r', 'u', 'e'] || w == seq!['t'] || w == seq!['y', 'e', 's'] || w == seq!['y'] {
        Some(true)
    } else if w == seq!['f', 'a', 'l', 's', 'e'] || w == seq!['f'] || w == seq!['n', 'o'] || w
        == seq!['n'] {
        Some(false)
    } else {
        None
    }
}

/// A key's field as a truth value: a yes/no word in any case, else a number
/// above zero.
pub open spec fn boolean_field(row: Seq<FieldModel>, key: Seq<char>) -> Option<bool> {
    match present(row, key) {
        Some(t) => match boolean_word(lower_text(t)) {
            Some(b) => Some(b),
            None => match field_for(row, key) {
                Some(f) => match f.number {
                    Some(n) => Some(n.positive),
                    None => None,
                },
                None => None,
            },
        },
        None => None,
    }
}

/// The row that zips `headers` with `record`, with `numbers[i]` as the
/// reading of field `i` (none past the end of `numbers`).
pub open spec fn zipped_row(
    headers: Seq<String>,
    record: Seq<String>,
    numbers: Seq<Option<NumberReading>>,
) -> Seq<FieldModel> {
    let n = if headers.len() < record.len() {
        headers.len()
    } else {
        record.len()
    };
    Seq::new(
        n,
        |i: int|
            FieldModel {
                name: headers[i]@,
                value: record[i]@,
                number: if i < numbers.len() {
                    numbers[i]
                } else {
                    None
                },
            },
    )
}

impl RawRow {
    /// Labels the fields of `record` with `headers`; columns past either end
    /// are left out.
    pub fn from_record(
        headers: &Vec<String>,
        record: &Vec<String>,
        numbers: &Vec<Option<NumberReading>>,
    ) -> (r: RawRow)
        ensures
            r@ == zipped_row(headers@, record@, numbers@),
    {
        let n = if headers.len() < record.len() {
            headers.len()
        } else {
            record.len()
        };
        let mut fields: Vec<RowField> = Vec::new();
        let mut i: usize = 0;
        while i < n
            invariant
                i <= n,
                n <= headers.len(),
                n <= record.len(),
                n == zipped_row(headers@, record@, numbers@).len(),
                fields@.map_values(|f: RowField| f.model()) =~= zipped_row(
                    headers@,
                    record@,
                    numbers@,
                ).subrange(0, i as int),
            decreases n - i,
        {
            let number = if i < numbers.len() {
                numbers[i]
            } else {
                None
            };
            let ghost before = fields@;
            let field = RowField { name: headers[i].clone(), value: record[i].clone(), number };
            assert(field.model() == zipped_row(headers@, record@, numbers@)[i as int]);
            fields.push(field);
            assert(fields@ =~= before.push(field));
            assert(fields@.map_values(|f: RowField| f.model()) =~= before.map_values(
                |f: RowField| f.model(),
            ).push(field.model()));
            i = i + 1;
        }
        RawRow { fields }
    }

    /// The field under `key`: the last one with that header.
    pub fn get(&self, key: &str) -> (r: Option<&RowField>)
        ensures
            match r {
                Some(f) => field_for(self@, key@) == Some(f.model()),
                None => field_for(self@, key@) is None,
            },
    {
        let k = key.to_owned();
        let mut i = self.fields.len();
        assert(self@.subrange(0, i as int) =~= self@);
        while i > 0
            invariant
                i <= self.fields.len(),
                k@ == key@,
                field_for(self@, key@) == field_for(self@.subrange(0, i as int), key@),
            decreases i,
        {
            assert(self@.subrange(0, i as int).last() == self.fields[i - 1].model());
            if self.fields[i - 1].name == k {
                return Some(&self.fields[i - 1]);
            }
            assert(self@.subrange(0, i as int).drop_last() =~= self@.subrange(0, i - 1));
            i = i - 1;
        }
        None
    }

    /// The trimmed text under `key`, unless missing or blank.
    pub fn present(&self, key: &str) -> (r: Option<String>)
        ensures
            match r {
                Some(s) => present(self@, key@) == Some(s@),
                None => present(self@, key@) is None,
            },
    {
        match self.get(key) {
            Some(f) => {
                let t = trim_text(f.value.as_str());
                if t.unicode_len() > 0 {
                    Some(t.to_owned())
                } else {
                    None
                }
            },
            None => None,
        }
    }

    /// The field under `key` as a rounded integer.
    pub fn to_integer(&self, key: &str) -> (r: Option<i64>)
        ensures
            r == integer_field(self@, key@),
    {
        match self.present(key) {
            Some(_) => match self.get(key) {
                Some(f) => match f.number {
                    Some(n) => Some(n.rounded),
                    None => None,
                },
                None => None,
            },
            None => None,
        }
    }

    /// The field under `key` as a truth value.
    pub fn to_boolean(&self, key: &str) -> (r: Option<bool>)
        ensures
            r == boolean_field(self@, key@),
    {
        match self.present(key) {
            Some(t) => {
                let w = to_lower(t.as_str());
                proof {
                    reveal_strlit("true");
                    reveal_strlit("t");
                    reveal_strlit("yes");
                    reveal_strlit("y");
                    reveal_strlit("false");
                    reveal_strlit("f");
                    reveal_strlit("no");
                    reveal_strlit("n");
                }
                assert("true"@ =~= seq!['t', 'r', 'u', 'e']);
                assert("t"@ =~= seq!['t']);
                assert("yes"@ =~= seq!['y', 'e', 's']);
                assert("y"@ =~= seq!['y']);
                assert("false"@ =~= seq!['f', 'a', 'l', 's', 'e']);
                assert("f"@ =~= seq!['f']);
                assert("no"@ =~= seq!['n', 'o']);
                assert("n"@ =~= seq!['n']);
                assert(w@ == lower_text(t@));
                if same_text(&w, "true") || same_text(&w, "t") || same_text(&w, "yes") || same_text(
                    &w,
                    "y",
                ) {
                    Some(true)
                } else if same_text(&w, "false") || same_text(&w, "f") || same_text(&w, "no")
                    || same_text(&w, "n") {
                    Some(false)
                } else {
                    match self.get(key) {
                        Some(f) => match f.number {
                            Some(n) => Some(n.positive),
                            None => None,
                        },
                        None => None,
                    }
                }
            },
            None => None,
        }
    }
}

} // verus!
