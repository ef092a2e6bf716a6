//! The `:61:` statement line.
//!
//! Its grammar, as the field is laid out:
//!
//! ```text
//! \d{6} (\d{4})? (RD|RC|D|C) [A-Z]? \d{1,15} , \d{0,2} [NF][A-Za-z0-9]{3} [^/]* (//[^\r\n]*)?
//! value  entry    mark       funds  amount               type code         customer  bank ref
//! ```
//!
//! where `\d` is any Unicode decimal digit. Every optional or repeated part is
//! decided by the next char alone, so the grammar reads the line left to
//! right without going back: this module states that reading as
//! `tag61_fields`.
use vstd::prelude::*;
use crate::amounts::{mt940_amount, parse_amount_chars};
use crate::dates::{
    date_v, entry_year, infer_entry_date, mt940_date, parse_date_range, two_digits, valid_ymd,
    Date, DateV,
};
use crate::digits::{is_decimal_digit, is_decimal_digit_exec, lemma_decimal_digit_ascii};
use crate::error::{invalid_amount_v, invalid_date_v, ParseError, ParseErrorV};
use crate::models::{opt_date_v, opt_string_v, DebitOrCredit, Transaction, TransactionV};
use crate::text::{
    byte_len, byte_len_capped, chars_of, find_char, find_char_range, is_ascii_alnum,
    is_ascii_upper, lemma_byte_len_eq_len, lemma_find_char, lemma_find_char_char, string_from,
    string_of_range, trim, trim_range,
};

verus! {

/// Number of consecutive decimal digits in `s` from index `i`.
pub open spec fn digit_run(s: Seq<char>, i: int) -> nat
    decreases s.len() - i,
{
    if 0 <= i < s.len() && is_decimal_digit(s[i]) {
        1 + digit_run(s, i + 1)
    } else {
        0
    }
}

/// No carriage return or line feed in `s`.
pub open spec fn no_line_break(s: Seq<char>) -> bool {
    forall|i: int| 0 <= i < s.len() ==> s[i] != '\r' && s[i] != '\n'
}

/// The parts of a `:61:` line.
pub struct Tag61Fields {
    pub value_date: Seq<char>,
    pub entry: Option<Seq<char>>,
    pub mark: Seq<char>,
    pub funds: Option<char>,
    pub amount: Seq<char>,
    pub type_code: Seq<char>,
    pub customer_ref: Seq<char>,
    pub bank_ref: Option<Seq<char>>,
}

/// Length of the debit/credit mark at `p`: `RD`/`RC` (2), `D`/`C` (1), or 0
/// when there is none.
pub open spec fn mark_len(m: Seq<char>, p: int) -> int {
    if p + 1 < m.len() && m[p] == 'R' && (m[p + 1] == 'D' || m[p + 1] == 'C') {
        2
    } else if p < m.len() && (m[p] == 'D' || m[p] == 'C') {
        1
    } else {
        0
    }
}

/// The `:61:` line `m` split into its parts, or `None` when it does not
/// follow the grammar.
pub open spec fn tag61_fields(m: Seq<char>) -> Option<Tag61Fields> {
    let p: int = if digit_run(m, 6) >= 4 {
        10
    } else {
        6
    };
    let q = p + mark_len(m, p);
    let has_funds = q < m.len() && is_ascii_upper(m[q]);
    let r = if has_funds {
        q + 1
    } else {
        q
    };
    let k = digit_run(m, r);
    let s0 = r + k + 1;
    let s = s0 + if digit_run(m, s0) >= 2 {
        2
    } else {
        digit_run(m, s0)
    };
    if digit_run(m, 0) < 6 || mark_len(m, p) == 0 {
        None
    } else if !(1 <= k <= 15 && r + k < m.len() && m[r + k] == ',') {
        None
    } else if !(s + 4 <= m.len() && (m[s] == 'N' || m[s] == 'F') && is_ascii_alnum(m[s + 1])
        && is_ascii_alnum(m[s + 2]) && is_ascii_alnum(m[s + 3])) {
        None
    } else {
        let t = m.skip(s + 4);
        let base = Tag61Fields {
            value_date: m.take(6),
            entry: if p == 10 {
                Some(m.subrange(6, 10))
            } else {
                None
            },
            mark: m.subrange(p, q),
            funds: if has_funds {
                Some(m[q])
            } else {
                None
            },
            amount: m.subrange(r, s),
            type_code: m.subrange(s, s + 4),
            customer_ref: t,
            bank_ref: None,
        };
        match find_char(t, '/') {
            None => Some(base),
            Some(f) => if f + 1 < t.len() && t[f + 1] == '/' && no_line_break(t.skip(f + 2)) {
                Some(Tag61Fields { customer_ref: t.take(f), bank_ref: Some(t.skip(f + 2)), ..base })
            } else {
                None
            },
        }
    }
}

/// The debit/credit mark as written: `RD`, `RC`, `D` or `C`.
pub open spec fn mark_dc(mark: Seq<char>) -> DebitOrCredit {
    if mark == seq!['R', 'D'] {
        DebitOrCredit::ReversalDebit
    } else if mark == seq!['R', 'C'] {
        DebitOrCredit::ReversalCredit
    } else if mark == seq!['D'] {
        DebitOrCredit::Debit
    } else {
        DebitOrCredit::Credit
    }
}

/// The entry date `MMDD` of a line with value date `vd`: its year inferred
/// from the value date, `None` unless it is four bytes (ASCII digits, as
/// the grammar admits only digits) forming a date.
pub open spec fn entry_date_of(vd: DateV, mmdd: Seq<char>) -> Option<DateV> {
    let m = two_digits(mmdd, 0);
    let d = two_digits(mmdd, 2);
    if byte_len(mmdd) != 4 || !valid_ymd(entry_year(vd, m, d), m, d) {
        None
    } else {
        Some(date_v(entry_year(vd, m, d), m, d))
    }
}

/// The `:61:` line proper: the value up to its first line feed.
pub open spec fn tx_main(value: Seq<char>) -> Seq<char> {
    match find_char(value, '\n') {
        Some(nl) => value.take(nl),
        None => value,
    }
}

/// The supplementary details: the trimmed text after the first line feed,
/// when it is not empty.
pub open spec fn tx_supplementary(value: Seq<char>) -> Option<Seq<char>> {
    match find_char(value, '\n') {
        Some(nl) => if trim(value.skip(nl + 1)).len() == 0 {
            None
        } else {
            Some(trim(value.skip(nl + 1)))
        },
        None => None,
    }
}

/// The error for a `:61:` line outside the grammar.
pub open spec fn tag61_format_error(main: Seq<char>) -> ParseErrorV {
    ParseErrorV::InvalidFormat {
        tag: ":61:"@,
        value: main,
        reason: "does not match expected format"@,
    }
}

/// What parsing a `:61:` value gives: the transaction it describes (with no
/// `:86:` details yet), or the first error among the grammar, the value date
/// and the amount.
pub open spec fn transaction_outcome(value: Seq<char>) -> Result<TransactionV, ParseErrorV> {
    let main = tx_main(value);
    match tag61_fields(main) {
        None => Err(tag61_format_error(main)),
        Some(f) => match mt940_date(f.value_date) {
            None => Err(invalid_date_v(f.value_date)),
            Some(vd) => match mt940_amount(f.amount) {
                None => Err(invalid_amount_v(f.amount)),
                Some(a) => Ok(
                    TransactionV {
                        value_date: vd,
                        entry_date: match f.entry {
                            Some(e) => entry_date_of(vd, e),
                            None => None,
                        },
                        debit_credit: mark_dc(f.mark),
                        funds_code: if f.mark.len() == 1 {
                            match f.funds {
                                Some(c) => Some(seq![c]),
                                None => None,
                            }
                        } else {
                            None
                        },
                        amount: a,
                        transaction_type: f.type_code,
                        customer_reference: trim(f.customer_ref),
                        bank_reference: f.bank_ref,
                        supplementary: tx_supplementary(value),
                        details: Seq::empty(),
                        structured_details: None,
                    },
                ),
            },
        },
    }
}

// ---------------------------------------------------------------------------
// Reading the grammar
// ---------------------------------------------------------------------------

proof fn lemma_digit_run(s: Seq<char>, i: int)
    requires
        0 <= i <= s.len(),
    ensures
        i + digit_run(s, i) <= s.len(),
        forall|j: int| i <= j < i + digit_run(s, i) ==> is_decimal_digit(#[trigger] s[j]),
        i + digit_run(s, i) < s.len() ==> !is_decimal_digit(s[i + digit_run(s, i)]),
    decreases s.len() - i,
{
    if i < s.len() && is_decimal_digit(s[i]) {
        lemma_digit_run(s, i + 1);
    }
}

/// A run of digits that ends inside `m` is the same in any extension of `m`.
proof fn lemma_digit_run_extend(m: Seq<char>, x: Seq<char>, i: int, j: int)
    requires
        0 <= i <= j < m.len(),
        !is_decimal_digit(m[j]),
    ensures
        digit_run(m + x, i) == digit_run(m, i),
    decreases j - i,
{
    assert((m + x)[i] == m[i]);
    if i < j && is_decimal_digit(m[i]) {
        lemma_digit_run_extend(m, x, i + 1, j);
    }
}

/// Appending `//` and a reference without line breaks to a `:61:` line that
/// follows the grammar and has no bank reference keeps every part of the
/// line and makes the appended text its bank reference.
pub proof fn law_bank_reference_appended(m: Seq<char>, b: Seq<char>)
    requires
        tag61_fields(m) is Some,
        tag61_fields(m)->0.bank_ref is None,
        no_line_break(b),
    ensures
        tag61_fields(m + seq!['/', '/'] + b) == Some(
            Tag61Fields { bank_ref: Some(b), ..tag61_fields(m)->0 },
        ),
{
    let x = seq!['/', '/'] + b;
    let m2 = m + x;
    assert(m + seq!['/', '/'] + b =~= m2);
    let p: int = if digit_run(m, 6) >= 4 {
        10
    } else {
        6
    };
    let q = p + mark_len(m, p);
    let has_funds = q < m.len() && is_ascii_upper(m[q]);
    let r = if has_funds {
        q + 1
    } else {
        q
    };
    let k = digit_run(m, r);
    let s0 = r + k + 1;
    let s = s0 + if digit_run(m, s0) >= 2 {
        2
    } else {
        digit_run(m, s0)
    };
    // the type code's first char ends every digit run read before it
    lemma_decimal_digit_ascii(m[s]);
    lemma_digit_run(m, 0);
    lemma_digit_run_extend(m, x, 0, s);
    lemma_digit_run_extend(m, x, 6, s);
    lemma_digit_run_extend(m, x, r, s);
    lemma_digit_run_extend(m, x, s0, s);
    assert forall|j: int| 0 <= j < m.len() implies m2[j] == m[j] by {}
    let t = m.skip(s + 4);
    let t2 = m2.skip(s + 4);
    assert(t2 =~= t + x);
    lemma_find_char(t, '/');
    lemma_find_char_char(t2, '/', t.len() as int);
    assert(t2.take(t.len() as int) =~= t);
    assert(t2.skip(t.len() as int + 2) =~= b);
    assert(m2.take(6) =~= m.take(6));
    assert(m2.subrange(6, 10) =~= m.subrange(6, 10));
    assert(m2.subrange(p, q) =~= m.subrange(p, q));
    assert(m2.subrange(r, s) =~= m.subrange(r, s));
    assert(m2.subrange(s, s + 4) =~= m.subrange(s, s + 4));
}

fn digit_run_exec(v: &[char], i: usize) -> (n: usize)
    requires
        i <= v@.len(),
    ensures
        n == digit_run(v@, i as int),
        i + n <= v@.len(),
{
    let mut j = i;
    while j < v.len() && is_decimal_digit_exec(v[j])
        invariant
            i <= j <= v@.len(),
            digit_run(v@, i as int) == (j - i) + digit_run(v@, j as int),
        decreases v@.len() - j,
    {
        j += 1;
    }
    j - i
}

/// Where the parts of a `:61:` line lie.
#[derive(Clone, Copy)]
pub struct Tag61Bounds {
    pub entry: bool,
    pub mark_start: usize,
    pub mark_end: usize,
    pub funds: bool,
    pub amount_start: usize,
    pub amount_end: usize,
    pub slash: Option<usize>,
}

/// The parts that `b` marks out in `m`.
pub open spec fn bounds_fields(m: Seq<char>, b: Tag61Bounds) -> Tag61Fields {
    let s = b.amount_end as int;
    let t_start = s + 4;
    Tag61Fields {
        value_date: m.take(6),
        entry: if b.entry {
            Some(m.subrange(6, 10))
        } else {
            None
        },
        mark: m.subrange(b.mark_start as int, b.mark_end as int),
        funds: if b.funds {
            Some(m[b.mark_end as int])
        } else {
            None
        },
        amount: m.subrange(b.amount_start as int, s),
        type_code: m.subrange(s, s + 4),
        customer_ref: match b.slash {
            Some(f) => m.subrange(t_start, f as int),
            None => m.skip(t_start),
        },
        bank_ref: match b.slash {
            Some(f) => Some(m.skip(f + 2)),
            None => None,
        },
    }
}

pub open spec fn bounds_wf(m: Seq<char>, b: Tag61Bounds) -> bool {
    &&& 6 <= b.mark_start < b.mark_end <= b.amount_start < b.amount_end
    &&& b.amount_end + 4 <= m.len()
    &&& b.entry ==> m.len() >= 10
    &&& b.funds ==> b.mark_end < m.len()
    &&& b.slash matches Some(f) ==> b.amount_end + 4 <= f && f + 2 <= m.len()
}

/// Reads the `:61:` line `m` by its grammar.
#[verifier::rlimit(40)]
fn match_tag61(m: &[char]) -> (r: Option<Tag61Bounds>)
    ensures
        r is Some <==> tag61_fields(m@) is Some,
        r matches Some(b) ==> bounds_wf(m@, b) && tag61_fields(m@) == Some(bounds_fields(m@, b)),
        r matches Some(b) ==> forall|j: int|
            b.amount_start <= j < b.amount_end ==> is_decimal_digit(#[trigger] m@[j]) || m@[j]
                == ',',
{
    let ghost g = m@;
    let len = m.len();
    if digit_run_exec(m, 0) < 6 {
        return None;
    }
    proof {
        lemma_digit_run(g, 0);
    }
    let entry = digit_run_exec(m, 6) >= 4;
    proof {
        lemma_digit_run(g, 6);
    }
    let p: usize = if entry {
        10
    } else {
        6
    };
    let ml: usize = if p + 1 < len && m[p] == 'R' && (m[p + 1] == 'D' || m[p + 1] == 'C') {
        2
    } else if p < len && (m[p] == 'D' || m[p] == 'C') {
        1
    } else {
        0
    };
    assert(ml == mark_len(g, p as int));
    if ml == 0 {
        return None;
    }
    let q = p + ml;
    let funds = q < len && 'A' <= m[q] && m[q] <= 'Z';
    let r = if funds {
        q + 1
    } else {
        q
    };
    let k = digit_run_exec(m, r);
    if !(1 <= k && k <= 15 && r + k < len && m[r + k] == ',') {
        return None;
    }
    let s0 = r + k + 1;
    let j = digit_run_exec(m, s0);
    proof {
        lemma_digit_run(g, r as int);
        lemma_digit_run(g, s0 as int);
    }
    let s = s0 + if j >= 2 {
        2
    } else {
        j
    };
    if !(s + 4 <= len && (m[s] == 'N' || m[s] == 'F') && alnum(m[s + 1]) && alnum(m[s + 2])
        && alnum(m[s + 3])) {
        return None;
    }
    let ghost t = g.skip(s + 4);
    let ts = s + 4;
    assert(g.subrange(ts as int, len as int) =~= t);
    match find_char_range(m, ts, len, '/') {
        None => {
            let b = Tag61Bounds {
                entry,
                mark_start: p,
                mark_end: q,
                funds,
                amount_start: r,
                amount_end: s,
                slash: None,
            };
            assert(tag61_fields(g) == Some(bounds_fields(g, b)));
            Some(b)
        },
        Some(f) => {
            proof {
                lemma_find_char(t, '/');
            }
            if f + 1 < len && m[f + 1] == '/' && no_break(m, f + 2) {
                let b = Tag61Bounds {
                    entry,
                    mark_start: p,
                    mark_end: q,
                    funds,
                    amount_start: r,
                    amount_end: s,
                    slash: Some(f),
                };
                proof {
                    assert(t.take(f - ts) =~= g.subrange(ts as int, f as int));
                    assert(t.skip(f - ts + 2) =~= g.skip(f + 2));
                    assert(t[f - ts + 1] == g[f + 1]);
                }
                assert(tag61_fields(g) == Some(bounds_fields(g, b)));
                Some(b)
            } else {
                proof {
                    if f + 1 < len {
                        assert(t.skip(f - ts + 2) =~= g.skip(f + 2));
                        assert(t[f - ts + 1] == g[f + 1]);
                    }
                }
                None
            }
        },
    }
}

/// Splits `v` at its first line feed: the end of the line proper and the
/// supplementary details.
fn split_value(v: &[char]) -> (r: (usize, Option<String>))
    ensures
        r.0 <= v@.len(),
        v@.subrange(0, r.0 as int) == tx_main(v@),
        opt_string_v(r.1) == tx_supplementary(v@),
{
    let n = v.len();
    assert(v@.subrange(0, n as int) =~= v@);
    match find_char_range(v, 0, n, '\n') {
        Some(nl) => {
            let (a, b) = trim_range(v, nl + 1, n);
            proof {
                assert(v@.skip(nl + 1) =~= v@.subrange(nl + 1, n as int));
                assert(v@.take(nl as int) =~= v@.subrange(0, nl as int));
            }
            if a == b {
                (nl, None)
            } else {
                (nl, Some(string_of_range(v, a, b)))
            }
        },
        None => (n, None),
    }
}

/// The debit/credit indicator and funds code of a line read as `b`.
fn mark_exec(m: &[char], b: Tag61Bounds) -> (r: (DebitOrCredit, Option<String>))
    requires
        bounds_wf(m@, b),
        tag61_fields(m@) == Some(bounds_fields(m@, b)),
    ensures
        r.0 == mark_dc(bounds_fields(m@, b).mark),
        opt_string_v(r.1) == (if bounds_fields(m@, b).mark.len() == 1 {
            match bounds_fields(m@, b).funds {
                Some(c) => Some(seq![c]),
                None => None,
            }
        } else {
            None
        }),
{
    let ghost f = bounds_fields(m@, b);
    let ms = b.mark_start;
    let dc = if b.mark_end - ms == 2 {
        if m[ms + 1] == 'D' {
            assert(f.mark =~= seq!['R', 'D']);
            DebitOrCredit::ReversalDebit
        } else {
            assert(f.mark =~= seq!['R', 'C']);
            assert(f.mark[1] != seq!['R', 'D'][1]);
            DebitOrCredit::ReversalCredit
        }
    } else if m[ms] == 'D' {
        assert(f.mark =~= seq!['D']);
        DebitOrCredit::Debit
    } else {
        assert(f.mark =~= seq!['C']);
        assert(f.mark[0] != seq!['D'][0]);
        assert(f.mark.len() != 2);
        DebitOrCredit::Credit
    };
    let funds = if b.mark_end - ms == 1 && b.funds {
        assert(m@.subrange(b.mark_end as int, b.mark_end + 1) =~= seq![m@[b.mark_end as int]]);
        Some(string_of_range(m, b.mark_end, b.mark_end + 1))
    } else {
        None
    };
    (dc, funds)
}

/// Parses a `:61:` value (the line and its continuation lines).
pub fn parse_transaction(value: &str) -> (r: Result<Transaction, ParseError>)
    ensures
        r is Ok <==> transaction_outcome(value@) is Ok,
        r matches Ok(t) ==> transaction_outcome(value@) == Ok::<TransactionV, ParseErrorV>(t@),
        r matches Err(e) ==> transaction_outcome(value@) == Err::<TransactionV, ParseErrorV>(e@),
        r matches Ok(t) ==> !t.amount@.negative,
{
    let v = chars_of(value);
    let n = v.len();
    let (main_end, supplementary) = split_value(v.as_slice());
    let main = string_of_range(v.as_slice(), 0, main_end);
    assert(main@ == tx_main(value@)) by {
        assert(v@.take(main_end as int) =~= v@.subrange(0, main_end as int));
    }
    let m = chars_of(main.as_str());
    let ghost g = m@;
    let b = match match_tag61(m.as_slice()) {
        Some(b) => b,
        None => {
            return Err(
                ParseError::InvalidFormat {
                    tag: ":61:",
                    value: main,
                    reason: string_from("does not match expected format"),
                },
            );
        },
    };
    let ghost f = bounds_fields(g, b);
    // value date: six decimal digits
    assert(g.take(6) =~= g.subrange(0, 6));
    let vd = match parse_date_range(m.as_slice(), 0, 6) {
        Some(d) => d,
        None => {
            return Err(
                ParseError::InvalidDate {
                    value: string_of_range(m.as_slice(), 0, 6),
                    tag: "(date field)",
                },
            );
        },
    };
    let entry_date = if b.entry {
        proof {
            lemma_digit_run(g, 6);
            assert(digit_run(g, 6) >= 4);
        }
        entry_date_exec(m.as_slice(), vd)
    } else {
        None
    };
    let (debit_credit, funds_code) = mark_exec(m.as_slice(), b);
    proof {
        assert forall|j: int| 0 <= j < g.subrange(b.amount_start as int, b.amount_end as int).len()
            implies g.subrange(b.amount_start as int, b.amount_end as int)[j] != '-' by {
            let c = g[b.amount_start + j];
            lemma_decimal_digit_ascii(c);
        }
    }
    let amount = match parse_amount_chars(m.as_slice(), b.amount_start, b.amount_end) {
        Some(a) => a,
        None => {
            return Err(
                ParseError::InvalidAmount {
                    value: string_of_range(m.as_slice(), b.amount_start, b.amount_end),
                    tag: "(amount field)",
                },
            );
        },
    };
    let s = b.amount_end;
    let len = m.len();
    let cust_end = match b.slash {
        Some(x) => x,
        None => len,
    };
    assert(g.skip(s + 4) =~= g.subrange(s + 4, len as int));
    let (ca, cb) = trim_range(m.as_slice(), s + 4, cust_end);
    let bank_reference = match b.slash {
        Some(x) => {
            assert(g.skip(x + 2) =~= g.subrange(x + 2, len as int));
            Some(string_of_range(m.as_slice(), x + 2, len))
        },
        None => None,
    };
    Ok(
        Transaction {
            value_date: vd,
            entry_date,
            debit_credit,
            funds_code,
            amount,
            transaction_type: string_of_range(m.as_slice(), s, s + 4),
            customer_reference: string_of_range(m.as_slice(), ca, cb),
            bank_reference,
            supplementary,
            details: String::new(),
            structured_details: None,
        },
    )
}

/// The entry date from the `MMDD` at `m[6..10]`.
fn entry_date_exec(m: &[char], vd: Date) -> (r: Option<Date>)
    requires
        m@.len() >= 10,
        forall|j: int| 6 <= j < 10 ==> is_decimal_digit(#[trigger] m@[j]),
    ensures
        opt_date_v(r) == entry_date_of(vd@, m@.subrange(6, 10)),
{
    let ghost e = m@.subrange(6, 10);
    if byte_len_capped(m, 6, 10, 5) != 4 {
        return None;
    }
    proof {
        lemma_byte_len_eq_len(e);
        assert forall|j: int| 6 <= j < 10 implies '0' <= #[trigger] m@[j] && m@[j] <= '9' by {
            assert(e[j - 6] == m@[j]);
            lemma_decimal_digit_ascii(m@[j]);
        }
        assert(e[0] == m@[6] && e[1] == m@[7] && e[2] == m@[8] && e[3] == m@[9]);
    }
    let mm = (m[6] as u32 - '0' as u32) * 10 + (m[7] as u32 - '0' as u32);
    let dd = (m[8] as u32 - '0' as u32) * 10 + (m[9] as u32 - '0' as u32);
    assert(mm == two_digits(e, 0) && dd == two_digits(e, 2));
    infer_entry_date(vd, mm, dd)
}

fn alnum(c: char) -> (b: bool)
    ensures
        b == is_ascii_alnum(c),
{
    ('0' <= c && c <= '9') || ('A' <= c && c <= 'Z') || ('a' <= c && c <= 'z')
}

/// No line break in `m` from index `i` on.
fn no_break(m: &[char], i: usize) -> (b: bool)
    requires
        i <= m@.len(),
    ensures
        b == no_line_break(m@.skip(i as int)),
{
    let mut j = i;
    while j < m.len()
        invariant
            i <= j <= m@.len(),
            forall|x: int| i <= x < j ==> m@[x] != '\r' && m@[x] != '\n',
        decreases m@.len() - j,
    {
        if m[j] == '\r' || m[j] == '\n' {
            assert(m@.skip(i as int)[j - i] == m@[j as int]);
            return false;
        }
        j += 1;
    }
    assert forall|x: int| 0 <= x < m@.skip(i as int).len() implies m@.skip(i as int)[x] != '\r'
        && m@.skip(i as int)[x] != '\n' by {
        assert(m@.skip(i as int)[x] == m@[i + x]);
    }
    true
}

} // verus!
