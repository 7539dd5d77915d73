//! The loader's run-wide state and the routing of documents to indices.

use crate::lookup::{AirportLookup, CancellationLookup};
use crate::text::{all_digits, opt_chars, opt_str_chars, text_all_digits};
use vstd::prelude::*;
use vstd::string::*;

verus! {

/// State that lives for one run: the index prefix, the batch size, the
/// lookup tables, the indices created so far and the record counters.
#[derive(Debug)]
pub struct FlightLoader {
    pub index_prefix: String,
    pub batch_size: usize,
    pub refresh: bool,
    pub airport_lookup: AirportLookup,
    pub cancellation_lookup: CancellationLookup,
    pub ensured_indices: Vec<String>,
    pub loaded_records: usize,
    pub total_records: usize,
}

/// The index a document goes to: `prefix-year-month` or `prefix-year` when
/// the file name gives a year, else `prefix-YYYY` from a timestamp that
/// starts with four digits, else none.
pub open spec fn index_for(
    prefix: Seq<char>,
    timestamp: Option<Seq<char>>,
    year: Option<Seq<char>>,
    month: Option<Seq<char>>,
) -> Option<Seq<char>> {
    match year {
        Some(y) => match month {
            Some(m) => Some(prefix + seq!['-'] + y + seq!['-'] + m),
            None => Some(prefix + seq!['-'] + y),
        },
        None => match timestamp {
            Some(t) => if t.len() >= 4 && all_digits(t.subrange(0, 4)) {
                Some(prefix + seq!['-'] + t.subrange(0, 4))
            } else {
                None
            },
            None => None,
        },
    }
}

impl FlightLoader {
    /// A loader with no index created and nothing loaded yet.
    pub fn new(
        index: String,
        batch_size: usize,
        refresh: bool,
        airport_lookup: AirportLookup,
        cancellation_lookup: CancellationLookup,
    ) -> (r: FlightLoader)
        ensures
            r.index_prefix == index,
            r.batch_size == batch_size,
            r.refresh == refresh,
            r.airport_lookup == airport_lookup,
            r.cancellation_lookup == cancellation_lookup,
            r.ensured_indices@.len() == 0,
            r.ensured_indices@.map_values(|s: String| s@).no_duplicates(),
            r.loaded_records == 0,
            r.total_records == 0,
    {
        let r = FlightLoader {
            index_prefix: index,
            batch_size,
            refresh,
            airport_lookup,
            cancellation_lookup,
            ensured_indices: Vec::new(),
            loaded_records: 0,
            total_records: 0,
        };
        assert(r.ensured_indices@.map_values(|s: String| s@) =~= Seq::<Seq<char>>::empty());
        r
    }

    /// The destination index for a document with `timestamp`, from a file
    /// whose name gave `file_year` and `file_month`.
    pub fn extract_index_name(
        &self,
        timestamp: Option<&str>,
        file_year: Option<&str>,
        file_month: Option<&str>,
    ) -> (r: Option<String>)
        ensures
            opt_chars(r) == index_for(
                self.index_prefix@,
                opt_str_chars(timestamp),
                opt_str_chars(file_year),
                opt_str_chars(file_month),
            ),
    {
        proof {
            reveal_strlit("-");
        }
        assert("-"@ =~= seq!['-']);
        match file_year {
            Some(y) => {
                let base = self.index_prefix.clone().concat("-").concat(y);
                match file_month {
                    Some(m) => {
                        let r = base.concat("-").concat(m);
                        assert(r@ =~= self.index_prefix@ + seq!['-'] + y@ + seq!['-'] + m@);
                        Some(r)
                    },
                    None => {
                        assert(base@ =~= self.index_prefix@ + seq!['-'] + y@);
                        Some(base)
                    },
                }
            },
            None => match timestamp {
                Some(t) => {
                    if t.unicode_len() >= 4 {
                        let head = t.substring_char(0, 4);
                        if text_all_digits(head) {
                            let r = self.index_prefix.clone().concat("-").concat(head);
                            assert(r@ =~= self.index_prefix@ + seq!['-'] + t@.subrange(0, 4));
                            return Some(r);
                        }
                    }
                    None
                },
                None => None,
            },
        }
    }

    /// Whether `index` still has to be created in this run.
    pub fn needs_index(&self, index: &str) -> (r: bool)
        ensures
            r == !self.ensured_indices@.map_values(|s: String| s@).contains(index@),
    {
        let k = index.to_owned();
        let mut i: usize = 0;
        while i < self.ensured_indices.len()
            invariant
                i <= self.ensured_indices.len(),
                k@ == index@,
                forall|j: int| 0 <= j < i ==> self.ensured_indices@[j]@ != index@,
            decreases self.ensured_indices.len() - i,
        {
            if self.ensured_indices[i] == k {
                assert(self.ensured_indices@.map_values(|s: String| s@)[i as int] == index@);
                return false;
            }
            i = i + 1;
        }
        true
    }

    /// Notes that `index` now exists, so it is created at most once per run.
    pub fn mark_index_ensured(&mut self, index: &str)
        ensures
            final(self).ensured_indices@.map_values(|s: String| s@).to_set() == old(
                self,
            ).ensured_indices@.map_values(|s: String| s@).to_set().insert(index@),
            old(self).ensured_indices@.map_values(|s: String| s@).no_duplicates()
                ==> final(self).ensured_indices@.map_values(|s: String| s@).no_duplicates(),
            final(self).index_prefix == old(self).index_prefix,
            final(self).batch_size == old(self).batch_size,
            final(self).refresh == old(self).refresh,
            final(self).airport_lookup == old(self).airport_lookup,
            final(self).cancellation_lookup == old(self).cancellation_lookup,
            final(self).loaded_records == old(self).loaded_records,
            final(self).total_records == old(self).total_records,
    {
        if self.needs_index(index) {
            let ghost before = self.ensured_indices@.map_values(|s: String| s@);
            self.ensured_indices.push(index.to_owned());
            assert(self.ensured_indices@.map_values(|s: String| s@) =~= before.push(index@));
            proof {
                before.lemma_push_to_set_commute(index@);
            }
        } else {
            let ghost before = self.ensured_indices@.map_values(|s: String| s@);
            assert(before.to_set() =~= before.to_set().insert(index@));
        }
    }
}

} // verus!
