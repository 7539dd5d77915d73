//! Year and month hints taken from a data file's name, such as
//! `flights-2024-03.csv.zip`.

use crate::text::{all_digits, ends_with, find_last, last_index, lemma_last_index_bounds, opt_chars, text_all_digits, text_ends_with};
use vstd::prelude::*;
use vstd::string::*;

verus! {

/// The stem of a file name as `Path::file_stem` gives it: the part before the
/// last `.`, or the whole name when it has no `.`, when its only `.` leads, or
/// when it is `..`.
pub open spec fn file_stem(name: Seq<char>) -> Seq<char> {
    let k = last_index(name, '.');
    if name == seq!['.', '.'] || k <= 0 {
        name
    } else {
        name.subrange(0, k)
    }
}

/// `s` ends in `.csv`, `.gz` or `.zip`.
pub open spec fn has_container_suffix(s: Seq<char>) -> bool {
    ||| ends_with(s, seq!['.', 'c', 's', 'v'])
    ||| ends_with(s, seq!['.', 'g', 'z'])
    ||| ends_with(s, seq!['.', 'z', 'i', 'p'])
}

/// Takes stems off `s` for as long as it ends in a container suffix and the
/// stem is shorter.
pub open spec fn strip_container_suffixes(s: Seq<char>) -> Seq<char>
    decreases s.len(),
{
    if has_container_suffix(s) && file_stem(s).len() < s.len() {
        strip_container_suffixes(file_stem(s))
    } else {
        s
    }
}

/// The year and month that a file name carries: `<anything>-YYYY-MM` gives
/// both, `<anything>-YYYY` gives the year, once container suffixes are gone.
pub open spec fn year_month_hint(name: Seq<char>) -> (Option<Seq<char>>, Option<Seq<char>>) {
    let base = strip_container_suffixes(file_stem(name));
    let k = last_index(base, '-');
    let last = base.subrange(k + 1, base.len() as int);
    let prefix = base.subrange(0, k);
    let j = last_index(prefix, '-');
    let before = prefix.subrange(j + 1, k);
    if k < 0 {
        (None, None)
    } else if last.len() == 2 && all_digits(last) && j >= 0 && before.len() == 4 && all_digits(
        before,
    ) {
        (Some(before), Some(last))
    } else if last.len() == 4 && all_digits(last) {
        (Some(last), None)
    } else {
        (None, None)
    }
}

/// The stem of a file name.
pub fn stem_of(name: &str) -> (r: &str)
    ensures
        r@ == file_stem(name@),
{
    proof {
        lemma_last_index_bounds(name@, '.');
    }
    let n = name.unicode_len();
    if n == 2 && name.get_char(0) == '.' && name.get_char(1) == '.' {
        assert(name@ =~= seq!['.', '.']);
        return name;
    }
    match find_last(name, '.') {
        Some(k) => {
            if k == 0 {
                name
            } else {
                name.substring_char(0, k)
            }
        },
        None => name,
    }
}

fn container_suffixed(s: &str) -> (r: bool)
    ensures
        r == has_container_suffix(s@),
{
    proof {
        reveal_strlit(".csv");
        reveal_strlit(".gz");
        reveal_strlit(".zip");
    }
    assert(".csv"@ =~= seq!['.', 'c', 's', 'v']);
    assert(".gz"@ =~= seq!['.', 'g', 'z']);
    assert(".zip"@ =~= seq!['.', 'z', 'i', 'p']);
    text_ends_with(s, ".csv") || text_ends_with(s, ".gz") || text_ends_with(s, ".zip")
}

/// Strips `.csv`, `.gz` and `.zip` stems off `s` one after another.
pub fn strip_suffixes(s: &str) -> (r: &str)
    ensures
        r@ == strip_container_suffixes(s@),
    decreases s@.len(),
{
    if container_suffixed(s) {
        let stem = stem_of(s);
        if stem.unicode_len() < s.unicode_len() {
            return strip_suffixes(stem);
        }
    }
    s
}

/// The `(year, month)` hints of a data file, from its file name (the last
/// component of its path; empty when the path has none).
pub fn extract_year_month_from_filename(file_name: &str) -> (r: (Option<String>, Option<String>))
    ensures
        opt_chars(r.0) == year_month_hint(file_name@).0,
        opt_chars(r.1) == year_month_hint(file_name@).1,
{
    let base = strip_suffixes(stem_of(file_name));
    let n = base.unicode_len();
    proof {
        lemma_last_index_bounds(base@, '-');
    }
    match find_last(base, '-') {
        None => (None, None),
        Some(k) => {
            let last = base.substring_char(k + 1, n);
            let prefix = base.substring_char(0, k);
            proof {
                lemma_last_index_bounds(prefix@, '-');
            }
            if last.unicode_len() == 2 && text_all_digits(last) {
                if let Some(j) = find_last(prefix, '-') {
                    let before = prefix.substring_char(j + 1, k);
                    if before.unicode_len() == 4 && text_all_digits(before) {
                        return (Some(before.to_owned()), Some(last.to_owned()));
                    }
                }
            }
            if last.unicode_len() == 4 && text_all_digits(last) {
                (Some(last.to_owned()), None)
            } else {
                (None, None)
            }
        },
    }
}

} // verus!
