//! Terminal formatting helpers.
//!
//! Table columns, human-readable byte sizes and elapsed-time phrases.
//! Printing itself stays with the caller; what is printed is computed here.

use vstd::prelude::*;
use vstd::string::StringExecFns;

use crate::strutil::{chars_of, dec_digits, digit_char, string_of, u64_to_digits, u64_to_string};

verus! {

/// A table column definition
pub struct Column {
    header: String,
    width: usize,
}

impl Column {
    /// The column's header text.
    pub closed spec fn spec_header(&self) -> Seq<char> {
        self.header@
    }

    /// The column's width in characters.
    pub closed spec fn spec_width(&self) -> int {
        self.width as int
    }

    /// Create a new column with header and width
    pub fn new(header: String, width: usize) -> (r: Self)
        ensures
            r.spec_header() == header@,
            r.spec_width() == width as int,
    {
        Self { header, width }
    }
}

/// A table formatter for aligned columnar output
pub struct TableFormatter {
    columns: Vec<Column>,
}

impl TableFormatter {
    /// The formatter's columns.
    pub closed spec fn spec_columns(&self) -> Seq<Column> {
        self.columns@
    }

    /// Create a new table formatter with the given columns
    pub fn new(columns: Vec<Column>) -> (r: Self)
        ensures
            r.spec_columns() == columns@,
    {
        Self { columns }
    }
}

/// Powers of 1024, one per size unit.
pub open spec fn pow1024(k: nat) -> nat
    decreases k,
{
    if k == 0 {
        1
    } else {
        1024 * pow1024((k - 1) as nat)
    }
}

/// The unit a byte count is shown in: the largest whose power fits.
pub open spec fn unit_of(b: nat) -> nat {
    if b < pow1024(1) {
        0
    } else if b < pow1024(2) {
        1
    } else if b < pow1024(3) {
        2
    } else if b < pow1024(4) {
        3
    } else if b < pow1024(5) {
        4
    } else {
        5
    }
}

/// The unit's suffix.
pub open spec fn unit_name(k: nat) -> Seq<char> {
    if k == 0 {
        "B"@
    } else if k == 1 {
        "KB"@
    } else if k == 2 {
        "MB"@
    } else if k == 3 {
        "GB"@
    } else if k == 4 {
        "TB"@
    } else {
        "PB"@
    }
}

/// A byte count as the user sees it: plain bytes below one KB, otherwise
/// the scaled value with one decimal place, truncated, and its unit.
pub open spec fn spec_format_bytes(b: nat) -> Seq<char> {
    let k = unit_of(b);
    if k == 0 {
        dec_digits(b) + " B"@
    } else {
        let tenths = b * 10 / pow1024(k);
        dec_digits(tenths / 10) + "."@ + dec_digits(tenths % 10) + " "@ + unit_name(k)
    }
}

/// Format a byte size into a human readable string
pub fn format_bytes(bytes: u64) -> (r: String)
    ensures
        r@ == spec_format_bytes(bytes as nat),
{
    proof {
        assert(pow1024(0) == 1);
        assert(pow1024(1) == 1024);
        assert(pow1024(2) == 1048576);
        assert(pow1024(3) == 1073741824);
        assert(pow1024(4) == 1099511627776);
        assert(pow1024(5) == 1125899906842624);
    }
    if bytes < 1024 {
        let mut v = u64_to_digits(bytes);
        let tail = chars_of(" B");
        v.extend_from_slice(tail.as_slice());
        proof {
            assert(v@ =~= spec_format_bytes(bytes as nat));
        }
        return string_of(v);
    }
    let pow: u64 = if bytes < 1048576 {
        1024
    } else if bytes < 1073741824 {
        1048576
    } else if bytes < 1099511627776 {
        1073741824
    } else if bytes < 1125899906842624 {
        1099511627776
    } else {
        1125899906842624
    };
    let ghost k = unit_of(bytes as nat);
    assert(pow == pow1024(k));
    let wide = (bytes as u128) * 10 / (pow as u128);
    proof {
        assert((bytes as nat) * 10 / (pow as nat) <= (bytes as nat)) by (nonlinear_arith)
            requires
                pow >= 1024,
        ;
    }
    let tenths = wide as u64;
    assert(tenths == (bytes as nat) * 10 / pow1024(k));
    let mut v = u64_to_digits(tenths / 10);
    v.push('.');
    v.push(crate::strutil::digit_to_char(tenths % 10));
    proof {
        assert(dec_digits((tenths % 10) as nat) =~= seq![digit_char((tenths % 10) as nat)]);
    }
    v.push(' ');
    let unit: &str = if bytes < 1048576 {
        "KB"
    } else if bytes < 1073741824 {
        "MB"
    } else if bytes < 1099511627776 {
        "GB"
    } else if bytes < 1125899906842624 {
        "TB"
    } else {
        "PB"
    };
    let ucs = chars_of(unit);
    v.extend_from_slice(ucs.as_slice());
    proof {
        assert(seq!['.'] =~= "."@) by {
            reveal_strlit(".");
        }
        assert(seq![' '] =~= " "@) by {
            reveal_strlit(" ");
        }
        assert(ucs@ == unit_name(k));
        assert(v@ =~= spec_format_bytes(bytes as nat));
    }
    string_of(v)
}

/// An elapsed time as the user reads it: the largest round unit, counted.
pub open spec fn spec_duration_words(days: nat, hours: nat, minutes: nat) -> Seq<char> {
    if days / 365 > 0 {
        dec_digits(days / 365) + " years ago"@
    } else if days / 30 > 0 {
        dec_digits(days / 30) + " months ago"@
    } else if days / 7 > 0 {
        dec_digits(days / 7) + " weeks ago"@
    } else if days > 0 {
        dec_digits(days) + " days ago"@
    } else if hours > 0 {
        dec_digits(hours) + " hours ago"@
    } else if minutes > 0 {
        dec_digits(minutes) + " minutes ago"@
    } else {
        "Seconds Ago"@
    }
}

/// Format an elapsed duration, given as days, leftover hours and minutes,
/// into a human readable phrase.
pub fn format_duration_words(days: u64, hours: u64, minutes: u64) -> (r: String)
    ensures
        r@ == spec_duration_words(days as nat, hours as nat, minutes as nat),
{
    if days / 365 > 0 {
        let mut s = u64_to_string(days / 365);
        s.append(" years ago");
        s
    } else if days / 30 > 0 {
        let mut s = u64_to_string(days / 30);
        s.append(" months ago");
        s
    } else if days / 7 > 0 {
        let mut s = u64_to_string(days / 7);
        s.append(" weeks ago");
        s
    } else if days > 0 {
        let mut s = u64_to_string(days);
        s.append(" days ago");
        s
    } else if hours > 0 {
        let mut s = u64_to_string(hours);
        s.append(" hours ago");
        s
    } else if minutes > 0 {
        let mut s = u64_to_string(minutes);
        s.append(" minutes ago");
        s
    } else {
        "Seconds Ago".to_owned()
    }
}

} // verus!
