//! Record counts: the estimate made before an import and the progress text
//! shown while it runs.

use crate::loader::FlightLoader;
use crate::text::{decimal, digit_char, digit_of, push_char, push_decimal};
use vstd::prelude::*;
use vstd::string::*;

verus! {

/// Three decimal digits of `n < 1000`, zero-padded.
pub open spec fn three_digits(n: nat) -> Seq<char> {
    seq![digit_char((n / 100) as int), digit_char(((n / 10) % 10) as int), digit_char((n % 10) as int)]
}

/// `n` in decimal with a comma between groups of three digits.
pub open spec fn grouped(n: nat) -> Seq<char>
    decreases n,
{
    if n < 1000 {
        decimal(n)
    } else {
        grouped(n / 1000) + seq![','] + three_digits(n % 1000)
    }
}

/// `loaded` as a percentage of `total > 0` in tenths, rounded half up.
pub open spec fn percent_tenths(loaded: nat, total: nat) -> nat {
    ((2000 * loaded + total) / (2 * total)) as nat
}

/// The progress line: `loaded of total records loaded (p%)` when a total is
/// known, else `loaded records loaded`.
pub open spec fn progress_text(loaded: nat, total: nat) -> Seq<char> {
    if total > 0 {
        let t = percent_tenths(loaded, total);
        grouped(loaded) + " of "@ + grouped(total) + " records loaded ("@ + decimal(t / 10) + seq![
            '.',
            digit_char((t % 10) as int),
        ] + "%)"@
    } else {
        grouped(loaded) + " records loaded"@
    }
}

/// Rows a file holds by its line count: one line is the header.
pub open spec fn rows_in(lines: usize) -> nat {
    if lines > 0 {
        (lines - 1) as nat
    } else {
        0
    }
}

/// The rows of all files together.
pub open spec fn records_estimate(line_counts: Seq<usize>) -> nat
    decreases line_counts.len(),
{
    if line_counts.len() == 0 {
        0
    } else {
        records_estimate(line_counts.drop_last()) + rows_in(line_counts.last())
    }
}

fn push_grouped(out: &mut String, n: u128)
    ensures
        final(out)@ == old(out)@ + grouped(n as nat),
    decreases n,
{
    if n < 1000 {
        push_decimal(out, n);
    } else {
        push_grouped(out, n / 1000);
        push_char(out, ',');
        let low = n % 1000;
        push_char(out, digit_of(low / 100));
        push_char(out, digit_of((low / 10) % 10));
        push_char(out, digit_of(low % 10));
        assert(final(out)@ =~= old(out)@ + grouped(n as nat));
    }
}

/// `number` with thousands separators, as in `1,234,567`.
pub fn format_number(number: usize) -> (r: String)
    ensures
        r@ == grouped(number as nat),
{
    let mut out = String::new();
    push_grouped(&mut out, number as u128);
    assert(out@ =~= grouped(number as nat));
    out
}

/// The number of data rows in files with these line counts, one header line
/// off each; the sum stops at `usize::MAX`.
pub fn count_total_records(line_counts: &Vec<usize>) -> (r: usize)
    ensures
        r == if records_estimate(line_counts@) <= usize::MAX {
            records_estimate(line_counts@)
        } else {
            usize::MAX as nat
        },
{
    let mut total: usize = 0;
    let mut i: usize = 0;
    while i < line_counts.len()
        invariant
            i <= line_counts.len(),
            total == if records_estimate(line_counts@.subrange(0, i as int)) <= usize::MAX {
                records_estimate(line_counts@.subrange(0, i as int))
            } else {
                usize::MAX as nat
            },
        decreases line_counts.len() - i,
    {
        assert(line_counts@.subrange(0, i + 1).drop_last() =~= line_counts@.subrange(0, i as int));
        let c = line_counts[i];
        let rows: usize = if c > 0 {
            c - 1
        } else {
            0
        };
        if total > usize::MAX - rows {
            total = usize::MAX;
        } else {
            total = total + rows;
        }
        i = i + 1;
    }
    assert(line_counts@.subrange(0, line_counts@.len() as int) =~= line_counts@);
    total
}

impl FlightLoader {
    /// How far the import has come.
    pub fn progress_message(&self) -> (r: String)
        ensures
            r@ == progress_text(self.loaded_records as nat, self.total_records as nat),
    {
        let mut out = format_number(self.loaded_records);
        if self.total_records > 0 {
            out.append(" of ");
            out.append(format_number(self.total_records).as_str());
            out.append(" records loaded (");
            let loaded = self.loaded_records as u128;
            let total = self.total_records as u128;
            let tenths: u128 = (2000 * loaded + total) / (2 * total);
            push_decimal(&mut out, tenths / 10);
            push_char(&mut out, '.');
            push_char(&mut out, digit_of(tenths % 10));
            out.append("%)");
            assert(out@ =~= progress_text(self.loaded_records as nat, self.total_records as nat));
        } else {
            out.append(" records loaded");
        }
        out
    }
}

} // verus!
