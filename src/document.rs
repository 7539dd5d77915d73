//! Documents as ordered key/value entries, their compaction and their JSON
//! text.

use crate::error::ImportError;
use crate::text::{json_quote, json_string, push_char, push_signed_decimal, signed_decimal};
use vstd::prelude::*;
use vstd::string::*;

verus! {

/// A value of a document field.
#[derive(Debug, PartialEq, Eq)]
pub enum FieldValue {
    Null,
    Text(String),
    Integer(i64),
    Flag(bool),
}

/// What a field value stands for.
pub enum JsonModel {
    Null,
    Text(Seq<char>),
    Integer(int),
    Flag(bool),
}

impl FieldValue {
    pub open spec fn model(&self) -> JsonModel {
        match self {
            FieldValue::Null => JsonModel::Null,
            FieldValue::Text(s) => JsonModel::Text(s@),
            FieldValue::Integer(i) => JsonModel::Integer(*i as int),
            FieldValue::Flag(b) => JsonModel::Flag(*b),
        }
    }

    /// A copy of this value.
    pub fn copied(&self) -> (r: FieldValue)
        ensures
            r == *self,
    {
        match self {
            FieldValue::Null => FieldValue::Null,
            FieldValue::Text(s) => FieldValue::Text(s.clone()),
            FieldValue::Integer(i) => FieldValue::Integer(*i),
            FieldValue::Flag(b) => FieldValue::Flag(*b),
        }
    }
}

/// One key and its value.
#[derive(Debug, PartialEq, Eq)]
pub struct Entry {
    pub key: String,
    pub value: FieldValue,
}

impl Entry {
    pub open spec fn model(&self) -> (Seq<char>, JsonModel) {
        (self.key@, self.value.model())
    }
}

/// A document: its entries in the order they are written out.
#[derive(Debug, PartialEq, Eq)]
pub struct Document {
    pub entries: Vec<Entry>,
}

impl View for Document {
    type V = Seq<(Seq<char>, JsonModel)>;

    open spec fn view(&self) -> Seq<(Seq<char>, JsonModel)> {
        self.entries@.map_values(|e: Entry| e.model())
    }
}

/// The entries of `d` whose value is not null, in their order.
pub open spec fn compacted(d: Seq<(Seq<char>, JsonModel)>) -> Seq<(Seq<char>, JsonModel)>
    decreases d.len(),
{
    if d.len() == 0 {
        Seq::empty()
    } else if d.last().1 is Null {
        compacted(d.drop_last())
    } else {
        compacted(d.drop_last()).push(d.last())
    }
}

/// Compaction leaves no null value behind and keeps every entry that is not
/// null.
pub proof fn lemma_compaction_drops_exactly_nulls(d: Seq<(Seq<char>, JsonModel)>)
    ensures
        forall|i: int| 0 <= i < compacted(d).len() ==> !(#[trigger] compacted(d)[i].1 is Null),
        forall|i: int|
            0 <= i < d.len() && !(d[i].1 is Null) ==> compacted(d).contains(#[trigger] d[i]),
        forall|i: int| 0 <= i < compacted(d).len() ==> d.contains(#[trigger] compacted(d)[i]),
    decreases d.len(),
{
    if d.len() > 0 {
        let p = d.drop_last();
        lemma_compaction_drops_exactly_nulls(p);
        assert forall|i: int| 0 <= i < d.len() && !(d[i].1 is Null) implies compacted(d).contains(
            #[trigger] d[i],
        ) by {
            if i < d.len() - 1 {
                assert(p[i] == d[i]);
                let j = choose|j: int| 0 <= j < compacted(p).len() && compacted(p)[j] == p[i];
                if !(d.last().1 is Null) {
                    assert(compacted(d)[j] == d[i]);
                }
            } else if !(d.last().1 is Null) {
                assert(compacted(d)[compacted(d).len() - 1] == d[i]);
            }
        }
        assert forall|i: int| 0 <= i < compacted(d).len() implies d.contains(
            #[trigger] compacted(d)[i],
        ) by {
            if i < compacted(p).len() {
                let j = choose|j: int| 0 <= j < p.len() && p[j] == compacted(p)[i];
                assert(d[j] == p[j]);
            } else {
                assert(d[d.len() - 1] == compacted(d)[i]);
            }
        }
    }
}

/// The document with its null entries removed.
pub fn compact_document(doc: &Document) -> (r: Document)
    ensures
        r@ == compacted(doc@),
{
    let mut kept: Vec<Entry> = Vec::new();
    let n = doc.entries.len();
    let mut i: usize = 0;
    while i < n
        invariant
            i <= n,
            n == doc.entries@.len(),
            kept@.map_values(|e: Entry| e.model()) == compacted(doc@.subrange(0, i as int)),
        decreases n - i,
    {
        let e = &doc.entries[i];
        assert(doc@.subrange(0, i + 1).drop_last() =~= doc@.subrange(0, i as int));
        if !matches!(e.value, FieldValue::Null) {
            kept.push(Entry { key: e.key.clone(), value: e.value.copied() });
        }
        assert(kept@.map_values(|e: Entry| e.model()) =~= compacted(doc@.subrange(0, i + 1)));
        i = i + 1;
    }
    assert(doc@.subrange(0, n as int) =~= doc@);
    Document { entries: kept }
}

/// How a value is written in JSON.
pub open spec fn value_text(v: JsonModel) -> Seq<char> {
    match v {
        JsonModel::Null => seq!['n', 'u', 'l', 'l'],
        JsonModel::Text(s) => json_string(s),
        JsonModel::Integer(i) => signed_decimal(i),
        JsonModel::Flag(b) => if b {
            seq!['t', 'r', 'u', 'e']
        } else {
            seq!['f', 'a', 'l', 's', 'e']
        },
    }
}

/// One `"key":value` member.
pub open spec fn member_text(e: (Seq<char>, JsonModel)) -> Seq<char> {
    json_string(e.0) + seq![':'] + value_text(e.1)
}

/// The members of an object, separated by commas.
pub open spec fn members_text(d: Seq<(Seq<char>, JsonModel)>) -> Seq<char>
    decreases d.len(),
{
    if d.len() == 0 {
        Seq::empty()
    } else if d.len() == 1 {
        member_text(d[0])
    } else {
        members_text(d.drop_last()) + seq![','] + member_text(d.last())
    }
}

/// A JSON object holding the entries in their order, with no spaces.
pub open spec fn object_text(d: Seq<(Seq<char>, JsonModel)>) -> Seq<char> {
    seq!['{'] + members_text(d) + seq!['}']
}

fn push_text(out: &mut String, t: &str)
    ensures
        final(out)@ == old(out)@ + t@,
{
    out.append(t);
}

fn push_value(out: &mut String, v: &FieldValue) -> (r: Result<(), ImportError>)
    ensures
        r is Ok,
        final(out)@ == old(out)@ + value_text(v.model()),
{
    match v {
        FieldValue::Null => {
            proof {
                reveal_strlit("null");
            }
            push_text(out, "null");
        },
        FieldValue::Text(s) => {
            match json_quote(s.as_str()) {
                Ok(q) => push_text(out, q.as_str()),
                Err(_) => return Err(ImportError::Serialization),
            }
        },
        FieldValue::Integer(i) => push_signed_decimal(out, *i),
        FieldValue::Flag(b) => {
            proof {
                reveal_strlit("true");
                reveal_strlit("false");
            }
            if *b {
                push_text(out, "true");
            } else {
                push_text(out, "false");
            }
        },
    }
    Ok(())
}

impl Document {
    /// The document as one line of JSON.
    pub fn to_json(&self) -> (r: Result<String, ImportError>)
        ensures
            r is Ok,
            r matches Ok(t) ==> t@ == object_text(self@),
    {
        let mut out = String::new();
        push_char(&mut out, '{');
        let n = self.entries.len();
        let mut i: usize = 0;
        while i < n
            invariant
                i <= n,
                n == self@.len(),
                out@ == seq!['{'] + members_text(self@.subrange(0, i as int)),
            decreases n - i,
        {
            let e = &self.entries[i];
            let ghost before = out@;
            assert(self@.subrange(0, i + 1).drop_last() =~= self@.subrange(0, i as int));
            if i > 0 {
                push_char(&mut out, ',');
            }
            match json_quote(e.key.as_str()) {
                Ok(q) => push_text(&mut out, q.as_str()),
                Err(_) => return Err(ImportError::Serialization),
            }
            push_char(&mut out, ':');
            match push_value(&mut out, &e.value) {
                Ok(()) => {},
                Err(err) => return Err(err),
            }
            assert(self@.subrange(0, i + 1).last() == e.model());
            assert(out@ =~= seq!['{'] + members_text(self@.subrange(0, i + 1)));
            i = i + 1;
        }
        push_char(&mut out, '}');
        assert(self@.subrange(0, n as int) =~= self@);
        assert(out@ =~= object_text(self@));
        Ok(out)
    }
}

} // verus!
