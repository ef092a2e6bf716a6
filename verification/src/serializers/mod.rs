//! Output formats: CSV, the JSON document model, and camt.053 XML.
pub mod csv;
pub mod json;
pub mod camt053;

use vstd::prelude::*;
use crate::dates::{decimal_text, ymd_text, Date};
use crate::models::{digit_char_exec, tx_purpose, TransactionV};
use crate::text::{chars_of, find_char, find_char_range, push_str, push_str_chars};

verus! {

/// `YYYY-MM-DD`.
pub fn date_string(d: &Date) -> (s: String)
    ensures
        s@ == ymd_text(d@),
{
    d.to_ymd_string()
}

/// The suffix of an ISO timestamp at midnight UTC.
pub open spec fn midnight_suffix() -> Seq<char> {
    seq!['T', '0', '0', ':', '0', '0', ':', '0', '0', '.', '0', '0', '0', 'Z']
}

/// `YYYY-MM-DDT00:00:00.000Z`.
pub fn date_iso(d: &Date) -> (s: String)
    ensures
        s@ == ymd_text(d@) + midnight_suffix(),
{
    let mut s = d.to_ymd_string();
    push_str(&mut s, "T00:00:00.000Z");
    proof {
        reveal_strlit("T00:00:00.000Z");
    }
    assert(s@ =~= ymd_text(d@) + midnight_suffix());
    s
}

/// The booking date: the entry date, or the value date when there is none.
pub open spec fn booking_date_text(tx: TransactionV) -> Seq<char> {
    match tx.entry_date {
        Some(d) => ymd_text(d),
        None => ymd_text(tx.value_date),
    }
}

/// The purpose: from the structured details, else the raw `:86:` text.
pub open spec fn purpose_or_details(tx: TransactionV) -> Seq<char> {
    match tx_purpose(tx) {
        Some(p) => p,
        None => tx.details,
    }
}

/// Decimal digits of `n`.
pub fn decimal_string(n: u64) -> (s: String)
    ensures
        s@ == decimal_text(n as nat),
    decreases n,
{
    if n < 10 {
        let mut s = String::new();
        s.push(digit_char_exec(n as u32));
        s
    } else {
        let mut s = decimal_string(n / 10);
        s.push(digit_char_exec((n % 10) as u32));
        s
    }
}

/// Decimal text of a signed number (`-` before the digits when negative).
pub open spec fn int_text(x: int) -> Seq<char> {
    if x < 0 {
        seq!['-'] + decimal_text((-x) as nat)
    } else {
        decimal_text(x as nat)
    }
}

/// Decimal text of `x` (what `i64`'s `Display` writes).
pub fn int_string(x: i64) -> (s: String)
    ensures
        s@ == int_text(x as int),
{
    if x < 0 {
        let m: u64 = (-(x as i128)) as u64;
        let mut s = String::new();
        s.push('-');
        let d = decimal_string(m);
        push_str(&mut s, d.as_str());
        s
    } else {
        decimal_string(x as u64)
    }
}

/// Starts with a char a spreadsheet reads as the start of a formula.
pub open spec fn starts_formula(s: Seq<char>) -> bool {
    s.len() > 0 && (s[0] == '=' || s[0] == '+' || s[0] == '-' || s[0] == '@')
}

/// `s` with each `"` doubled.
pub open spec fn double_quotes(s: Seq<char>) -> Seq<char>
    decreases s.len(),
{
    if s.len() == 0 {
        Seq::empty()
    } else {
        double_quotes(s.drop_last()) + if s.last() == '"' {
            seq!['"', '"']
        } else {
            seq![s.last()]
        }
    }
}

/// A CSV field: quoted (with inner quotes doubled) when it holds a comma, a
/// quote or a line feed, and prefixed with a tab when it starts like a
/// formula (`=`, `+`, `-`, `@`).
#[verifier::opaque]
pub open spec fn csv_escape_v(s: Seq<char>) -> Seq<char> {
    let escaped = if find_char(s, ',') is Some || find_char(s, '"') is Some || find_char(s, '\n') is Some {
        seq!['"'] + double_quotes(s) + seq!['"']
    } else {
        s
    };
    if starts_formula(s) {
        seq!['\t'] + escaped
    } else {
        escaped
    }
}

/// Escapes a CSV field (see `csv_escape_v`).
pub fn csv_escape(s: &str) -> (r: String)
    ensures
        r@ == csv_escape_v(s@),
{
    let v = chars_of(s);
    let n = v.len();
    assert(v@.subrange(0, n as int) =~= v@);
    let needs_prefix = n > 0 && (v[0] == '=' || v[0] == '+' || v[0] == '-' || v[0] == '@');
    let needs_quotes = find_char_range(v.as_slice(), 0, n, ',').is_some() || find_char_range(
        v.as_slice(),
        0,
        n,
        '"',
    ).is_some() || find_char_range(v.as_slice(), 0, n, '\n').is_some();
    let mut r = String::new();
    if needs_prefix {
        r.push('\t');
    }
    let ghost start = r@;
    if needs_quotes {
        r.push('"');
        let mut i: usize = 0;
        while i < n
            invariant
                n == v@.len(),
                i <= n,
                r@ == start + seq!['"'] + double_quotes(v@.take(i as int)),
            decreases n - i,
        {
            if v[i] == '"' {
                r.push('"');
                r.push('"');
            } else {
                r.push(v[i]);
            }
            proof {
                assert(v@.take(i + 1).drop_last() =~= v@.take(i as int));
            }
            i += 1;
        }
        r.push('"');
        assert(v@.take(n as int) =~= v@);
    } else {
        push_str_chars(&mut r, v.as_slice(), 0, n);
    }
    proof {
        reveal(csv_escape_v);
    }
    assert(r@ =~= csv_escape_v(s@));
    r
}

} // verus!
