//! The static lookup tables: airport coordinates by IATA code and
//! cancellation descriptions by reason code. Codes are kept upper-cased; a
//! later entry for a code replaces an earlier one.

use crate::text::{all_ascii, ascii_upper_char, opt_chars, same_text, to_upper, trim_text, trimmed, upper_text};
use vstd::prelude::*;
use vstd::string::*;

verus! {

/// The value of the last entry under `key`.
pub open spec fn last_value(t: Seq<(Seq<char>, Seq<char>)>, key: Seq<char>) -> Option<Seq<char>>
    decreases t.len(),
{
    if t.len() == 0 {
        None
    } else if t.last().0 == key {
        Some(t.last().1)
    } else {
        last_value(t.drop_last(), key)
    }
}

/// Code/value pairs in the order they were added.
#[derive(Debug)]
struct CodeTable {
    entries: Vec<(String, String)>,
}

impl View for CodeTable {
    type V = Seq<(Seq<char>, Seq<char>)>;

    closed spec fn view(&self) -> Seq<(Seq<char>, Seq<char>)> {
        self.entries@.map_values(|e: (String, String)| (e.0@, e.1@))
    }
}

impl CodeTable {
    fn new() -> (r: CodeTable)
        ensures
            r@ == Seq::<(Seq<char>, Seq<char>)>::empty(),
    {
        let r = CodeTable { entries: Vec::new() };
        assert(r@ =~= Seq::<(Seq<char>, Seq<char>)>::empty());
        r
    }

    fn add(&mut self, code: &str, value: String)
        ensures
            final(self)@ == old(self)@.push((upper_text(code@), value@)),
    {
        let key = to_upper(code);
        let ghost before = self.entries@;
        self.entries.push((key, value));
        assert(self.entries@ =~= before.push((key, value)));
        assert(self@ =~= old(self)@.push((upper_text(code@), value@)));
    }

    fn find(&self, code: &str) -> (r: Option<&String>)
        ensures
            match r {
                Some(v) => last_value(self@, upper_text(code@)) == Some(v@),
                None => last_value(self@, upper_text(code@)) is None,
            },
    {
        let key = to_upper(code);
        let mut i = self.entries.len();
        assert(self@.subrange(0, i as int) =~= self@);
        while i > 0
            invariant
                i <= self.entries.len(),
                key@ == upper_text(code@),
                last_value(self@, key@) == last_value(self@.subrange(0, i as int), key@),
            decreases i,
        {
            assert(self@.subrange(0, i as int).last() == (
                self.entries@[i - 1].0@,
                self.entries@[i - 1].1@,
            ));
            if self.entries[i - 1].0 == key {
                return Some(&self.entries[i - 1].1);
            }
            assert(self@.subrange(0, i as int).drop_last() =~= self@.subrange(0, i - 1));
            i = i - 1;
        }
        None
    }
}

/// Airport coordinates (`"lat,lon"` text) by upper-cased IATA code.
#[derive(Debug)]
pub struct AirportLookup {
    table: CodeTable,
}

/// The parts of an airport record that the table uses, trimmed.
#[derive(Debug, PartialEq, Eq)]
pub struct AirportFields {
    pub code: String,
    pub latitude: String,
    pub longitude: String,
}

/// An airport record is used when it has at least eight columns, a code in
/// column 4 that is neither blank nor `\N`, and text in columns 6 and 7.
pub open spec fn airport_fields(record: Seq<String>) -> Option<(Seq<char>, Seq<char>, Seq<char>)> {
    if record.len() < 8 {
        None
    } else {
        let code = trimmed(record[4]@);
        let lat = trimmed(record[6]@);
        let lon = trimmed(record[7]@);
        if code.len() == 0 || code == seq!['\\', 'N'] || lat.len() == 0 || lon.len() == 0 {
            None
        } else {
            Some((code, lat, lon))
        }
    }
}

impl View for AirportLookup {
    type V = Seq<(Seq<char>, Seq<char>)>;

    closed spec fn view(&self) -> Seq<(Seq<char>, Seq<char>)> {
        self.table@
    }
}

impl AirportLookup {
    /// An empty table.
    pub fn new() -> (r: AirportLookup)
        ensures
            r@ == Seq::<(Seq<char>, Seq<char>)>::empty(),
    {
        AirportLookup { table: CodeTable::new() }
    }

    /// Records `coordinates` for `code`, upper-cased.
    pub fn add(&mut self, code: &str, coordinates: String)
        ensures
            final(self)@ == old(self)@.push((upper_text(code@), coordinates@)),
    {
        self.table.add(code, coordinates);
    }

    /// The code and coordinate texts of an airport record, when it has them.
    pub fn airport_fields(record: &Vec<String>) -> (r: Option<AirportFields>)
        ensures
            match r {
                Some(f) => airport_fields(record@) == Some((f.code@, f.latitude@, f.longitude@)),
                None => airport_fields(record@) is None,
            },
    {
        if record.len() < 8 {
            return None;
        }
        let code = trim_text(record[4].as_str()).to_owned();
        let lat = trim_text(record[6].as_str());
        let lon = trim_text(record[7].as_str());
        proof {
            reveal_strlit("\\N");
        }
        assert("\\N"@ =~= seq!['\\', 'N']);
        if code.as_str().unicode_len() == 0 || same_text(&code, "\\N") || lat.unicode_len() == 0
            || lon.unicode_len() == 0 {
            None
        } else {
            Some(AirportFields { code, latitude: lat.to_owned(), longitude: lon.to_owned() })
        }
    }

    /// The coordinates of an airport, looked up by its code in any case.
    pub fn lookup_coordinates(&self, iata_code: Option<&str>) -> (r: Option<String>)
        ensures
            opt_chars(r) == match iata_code {
                Some(c) => last_value(self@, upper_text(c@)),
                None => None,
            },
    {
        match iata_code {
            Some(c) => match self.table.find(c) {
                Some(v) => Some(v.clone()),
                None => None,
            },
            None => None,
        }
    }
}

/// Cancellation descriptions by upper-cased reason code.
#[derive(Debug)]
pub struct CancellationLookup {
    table: CodeTable,
}

impl View for CancellationLookup {
    type V = Seq<(Seq<char>, Seq<char>)>;

    closed spec fn view(&self) -> Seq<(Seq<char>, Seq<char>)> {
        self.table@
    }
}

/// Position of the first header equal to `key`, or -1.
pub open spec fn first_position(headers: Seq<String>, key: Seq<char>) -> int
    decreases headers.len(),
{
    if headers.len() == 0 {
        -1
    } else if headers[0]@ == key {
        0
    } else if first_position(headers.drop_first(), key) < 0 {
        -1
    } else {
        first_position(headers.drop_first(), key) + 1
    }
}

/// The column of `key`, or `fallback` when no header is `key`.
pub open spec fn column_of(headers: Seq<String>, key: Seq<char>, fallback: int) -> int {
    if first_position(headers, key) < 0 {
        fallback
    } else {
        first_position(headers, key)
    }
}

/// Trimmed text of column `i`, empty when the record is shorter.
pub open spec fn column_text(record: Seq<String>, i: int) -> Seq<char> {
    if 0 <= i < record.len() {
        trimmed(record[i]@)
    } else {
        Seq::empty()
    }
}

pub(crate) fn first_header(headers: &Vec<String>, key: &str) -> (r: Option<usize>)
    ensures
        match r {
            Some(i) => first_position(headers@, key@) == i,
            None => first_position(headers@, key@) == -1,
        },
{
    let k = key.to_owned();
    let mut i: usize = 0;
    while i < headers.len()
        invariant
            i <= headers.len(),
            k@ == key@,
            forall|j: int| 0 <= j < i ==> headers@[j]@ != key@,
        decreases headers.len() - i,
    {
        if headers[i] == k {
            proof {
                lemma_first_position_at(headers@, key@, i as int);
            }
            return Some(i);
        }
        i = i + 1;
    }
    proof {
        lemma_first_position_at(headers@, key@, headers@.len() as int);
    }
    None
}

proof fn lemma_first_position_at(headers: Seq<String>, key: Seq<char>, i: int)
    requires
        0 <= i <= headers.len(),
        forall|j: int| 0 <= j < i ==> headers[j]@ != key,
        i < headers.len() ==> headers[i]@ == key,
    ensures
        first_position(headers, key) == if i < headers.len() {
            i
        } else {
            -1
        },
    decreases i,
{
    if i > 0 {
        lemma_first_position_at(headers.drop_first(), key, i - 1);
    }
}

fn column_value(record: &Vec<String>, i: usize) -> (r: &str)
    ensures
        r@ == column_text(record@, i as int),
{
    if i < record.len() {
        trim_text(record[i].as_str())
    } else {
        proof {
            reveal_strlit("");
        }
        ""
    }
}

impl CancellationLookup {
    /// An empty table.
    pub fn new() -> (r: CancellationLookup)
        ensures
            r@ == Seq::<(Seq<char>, Seq<char>)>::empty(),
    {
        CancellationLookup { table: CodeTable::new() }
    }

    /// The columns holding codes and descriptions: those headed `Code` and
    /// `Description`, else the first and second.
    pub fn column_positions(headers: &Vec<String>) -> (r: (usize, usize))
        ensures
            r.0 == column_of(headers@, "Code"@, 0),
            r.1 == column_of(headers@, "Description"@, 1),
    {
        let code = match first_header(headers, "Code") {
            Some(i) => i,
            None => 0,
        };
        let description = match first_header(headers, "Description") {
            Some(i) => i,
            None => 1,
        };
        (code, description)
    }

    /// Adds a record's code and description when both are non-blank, and
    /// tells whether it did.
    pub fn add_record(&mut self, code_column: usize, description_column: usize, record: &Vec<String>) -> (r: bool)
        ensures
            ({
                let code = column_text(record@, code_column as int);
                let description = column_text(record@, description_column as int);
                &&& r == (code.len() > 0 && description.len() > 0)
                &&& if code.len() > 0 && description.len() > 0 {
                    final(self)@ == old(self)@.push((upper_text(code), description))
                } else {
                    final(self)@ == old(self)@
                }
            }),
    {
        let code = column_value(record, code_column);
        let description = column_value(record, description_column);
        if code.unicode_len() > 0 && description.unicode_len() > 0 {
            self.table.add(code, description.to_owned());
            true
        } else {
            false
        }
    }

    /// The description of a reason code, looked up in any case.
    pub fn lookup_reason(&self, code: Option<&str>) -> (r: Option<&String>)
        ensures
            match r {
                Some(v) => code is Some && last_value(self@, upper_text(code->0@)) == Some(v@),
                None => code is None || last_value(self@, upper_text(code->0@)) is None,
            },
    {
        match code {
            Some(c) => self.table.find(c),
            None => None,
        }
    }
}

/// A code looks up the same entry whatever the case of its ASCII letters.
pub proof fn lemma_lookup_ignores_ascii_case(
    t: Seq<(Seq<char>, Seq<char>)>,
    a: Seq<char>,
    b: Seq<char>,
)
    requires
        all_ascii(a),
        all_ascii(b),
        a.map_values(|c: char| ascii_upper_char(c)) == b.map_values(|c: char| ascii_upper_char(c)),
    ensures
        last_value(t, upper_text(a)) == last_value(t, upper_text(b)),
{
}

} // verus!
