//! Calendar dates: the `Date` type, MT940 `YYMMDD` parsing and entry-date
//! inference. Calendar validity and ISO formatting come from `chrono`.
use vstd::prelude::*;
use chrono::{Datelike, NaiveDate};
use crate::error::ParseError;
use crate::text::{
    byte_len, byte_len_range, chars_of, is_ascii_digit, lemma_byte_len_concat, lemma_byte_len_ge_len,
    string_from, utf8_len, utf8_len_exec,
};

verus! {

// ---------------------------------------------------------------------------
// Calendar rules
// ---------------------------------------------------------------------------

/// Smallest year `chrono::NaiveDate` represents.
pub open spec fn min_year() -> int {
    -262143
}

/// Largest year `chrono::NaiveDate` represents.
pub open spec fn max_year() -> int {
    262142
}

/// Proleptic Gregorian leap years.
pub open spec fn is_leap_year(y: int) -> bool {
    (y % 4 == 0 && y % 100 != 0) || y % 400 == 0
}

pub open spec fn days_in_month(y: int, m: int) -> int {
    if m == 2 {
        if is_leap_year(y) {
            29
        } else {
            28
        }
    } else if m == 4 || m == 6 || m == 9 || m == 11 {
        30
    } else {
        31
    }
}

/// `(y, m, d)` names a calendar day that `chrono::NaiveDate` can hold.
pub open spec fn valid_ymd(y: int, m: int, d: int) -> bool {
    &&& min_year() <= y <= max_year()
    &&& 1 <= m <= 12
    &&& 1 <= d <= days_in_month(y, m)
}

/// Abstract value of a [`Date`].
pub struct DateV {
    pub year: int,
    pub month: int,
    pub day: int,
}

pub open spec fn date_v(y: int, m: int, d: int) -> DateV {
    DateV { year: y, month: m, day: d }
}

/// A calendar date (proleptic Gregorian), as `chrono::NaiveDate` holds it.
#[derive(Debug, Clone, Copy, PartialEq, Eq, Structural)]
pub struct Date {
    year: i32,
    month: u32,
    day: u32,
}

impl View for Date {
    type V = DateV;

    closed spec fn view(&self) -> DateV {
        DateV { year: self.year as int, month: self.month as int, day: self.day as int }
    }
}

impl Date {
    #[verifier::type_invariant]
    closed spec fn inv(self) -> bool {
        valid_ymd(self.year as int, self.month as int, self.day as int)
    }

    /// The date `year-month-day`, or `None` where no such day exists.
    pub fn from_ymd_opt(year: i32, month: u32, day: u32) -> (r: Option<Date>)
        ensures
            r is Some <==> valid_ymd(year as int, month as int, day as int),
            r matches Some(d) ==> d@ == date_v(year as int, month as int, day as int),
    {
        naive_date_from_ymd(year, month, day)
    }

    pub fn year(&self) -> (y: i32)
        ensures
            y == self@.year,
            valid_ymd(self@.year, self@.month, self@.day),
    {
        proof {
            use_type_invariant(self);
        }
        self.year
    }

    pub fn month(&self) -> (m: u32)
        ensures
            m == self@.month,
            valid_ymd(self@.year, self@.month, self@.day),
    {
        proof {
            use_type_invariant(self);
        }
        self.month
    }

    pub fn day(&self) -> (d: u32)
        ensures
            d == self@.day,
            valid_ymd(self@.year, self@.month, self@.day),
    {
        proof {
            use_type_invariant(self);
        }
        self.day
    }

    /// 1970-01-01, the value `chrono::NaiveDate::default()` gives.
    pub fn epoch() -> (d: Date)
        ensures
            d@ == date_v(1970, 1, 1),
    {
        Date { year: 1970, month: 1, day: 1 }
    }

    /// The date as `YYYY-MM-DD` (chrono's `%Y-%m-%d`).
    pub fn to_ymd_string(&self) -> (s: String)
        ensures
            s@ == ymd_text(self@),
    {
        proof {
            use_type_invariant(self);
        }
        naive_date_format_ymd(self.year, self.month, self.day)
    }
}

// ---------------------------------------------------------------------------
// Decimal text
// ---------------------------------------------------------------------------

pub open spec fn digit_char(d: int) -> char {
    if d == 0 {
        '0'
    } else if d == 1 {
        '1'
    } else if d == 2 {
        '2'
    } else if d == 3 {
        '3'
    } else if d == 4 {
        '4'
    } else if d == 5 {
        '5'
    } else if d == 6 {
        '6'
    } else if d == 7 {
        '7'
    } else if d == 8 {
        '8'
    } else {
        '9'
    }
}

/// Decimal digits of `n` without leading zeros (`"0"` for zero).
pub open spec fn decimal_text(n: nat) -> Seq<char>
    decreases n,
{
    if n < 10 {
        seq![digit_char(n as int)]
    } else {
        decimal_text(n / 10).push(digit_char((n % 10) as int))
    }
}

/// `s` left-padded with `'0'` to at least `w` chars.
pub open spec fn zero_pad(s: Seq<char>, w: nat) -> Seq<char> {
    if s.len() >= w {
        s
    } else {
        Seq::new((w - s.len()) as nat, |i: int| '0') + s
    }
}

/// chrono's `%Y`: four digits in 0..=9999, otherwise a sign and at least four digits.
pub open spec fn year_text(y: int) -> Seq<char> {
    if 0 <= y <= 9999 {
        zero_pad(decimal_text(y as nat), 4)
    } else if y < 0 {
        seq!['-'] + zero_pad(decimal_text((-y) as nat), 4)
    } else {
        seq!['+'] + zero_pad(decimal_text(y as nat), 4)
    }
}

/// chrono's `%Y-%m-%d`.
pub open spec fn ymd_text(d: DateV) -> Seq<char> {
    year_text(d.year) + seq!['-'] + zero_pad(decimal_text(d.month as nat), 2) + seq!['-']
        + zero_pad(decimal_text(d.day as nat), 2)
}

// ---------------------------------------------------------------------------
// chrono
// ---------------------------------------------------------------------------

/// Calls `chrono::NaiveDate::from_ymd_opt`. Claimed: it yields a date exactly
/// when the day exists in the proleptic Gregorian calendar and the year lies in
/// chrono's range (its documentation and `MIN_YEAR`/`MAX_YEAR`), and that
/// date's `year()`, `month()`, `day()` are the arguments.
#[verifier::external_body]
fn naive_date_from_ymd(year: i32, month: u32, day: u32) -> (r: Option<Date>)
    ensures
        r is Some <==> valid_ymd(year as int, month as int, day as int),
        r matches Some(d) ==> d@ == date_v(year as int, month as int, day as int),
{
    match NaiveDate::from_ymd_opt(year, month, day) {
        Some(nd) => Some(Date { year: nd.year(), month: nd.month(), day: nd.day() }),
        None => None,
    }
}

/// Calls `chrono::NaiveDate::format` with `"%Y-%m-%d"` on the date
/// `year-month-day`. Claimed: the text is chrono's zero-padded year (signed
/// outside 0..=9999), month and day joined by `-` (chrono's `write_year` and
/// `write_two` with zero padding).
#[verifier::external_body]
fn naive_date_format_ymd(year: i32, month: u32, day: u32) -> (s: String)
    requires
        valid_ymd(year as int, month as int, day as int),
    ensures
        s@ == ymd_text(date_v(year as int, month as int, day as int)),
{
    NaiveDate::from_ymd_opt(year, month, day).unwrap().format("%Y-%m-%d").to_string()
}

// ---------------------------------------------------------------------------
// Integer text as `str::parse` reads it (texts of at most two chars)
// ---------------------------------------------------------------------------

pub open spec fn digit_value(c: char) -> int {
    c as int - '0' as int
}

/// Value of a non-empty run of ASCII digits.
pub open spec fn digits_value(s: Seq<char>) -> Option<int>
    decreases s.len(),
{
    if s.len() == 0 || !is_ascii_digit(s.last()) {
        None
    } else if s.len() == 1 {
        Some(digit_value(s[0]))
    } else {
        match digits_value(s.drop_last()) {
            Some(v) => Some(v * 10 + digit_value(s.last())),
            None => None,
        }
    }
}

pub open spec fn opt_usize(o: Option<int>) -> Option<usize> {
    match o {
        Some(x) => Some(x as usize),
        None => None,
    }
}

pub open spec fn opt_shift(o: Option<int>, k: int) -> Option<int> {
    match o {
        Some(x) => Some(x + k),
        None => None,
    }
}

// ---------------------------------------------------------------------------
// Byte positions inside char sequences
// ---------------------------------------------------------------------------

/// The char index where byte offset `b` of `s` starts, if `b` falls on a char
/// boundary (slicing `&s[..b]` panics otherwise).
pub open spec fn char_index_at_byte(s: Seq<char>, b: int) -> Option<int>
    decreases s.len(),
{
    if b == 0 {
        Some(0)
    } else if s.len() == 0 || b < utf8_len(s[0]) {
        None
    } else {
        match char_index_at_byte(s.drop_first(), b - utf8_len(s[0])) {
            Some(i) => Some(i + 1),
            None => None,
        }
    }
}

pub proof fn lemma_char_index_at_byte(s: Seq<char>, b: int)
    requires
        b >= 0,
    ensures
        char_index_at_byte(s, b) matches Some(i) ==> 0 <= i <= s.len() && byte_len(s.take(i))
            == b,
    decreases s.len(),
{
    if b != 0 && s.len() > 0 && b >= utf8_len(s[0]) {
        lemma_char_index_at_byte(s.drop_first(), b - utf8_len(s[0]));
        match char_index_at_byte(s.drop_first(), b - utf8_len(s[0])) {
            Some(i) => {
                lemma_byte_len_prepend(s.drop_first().take(i), s[0]);
                assert(seq![s[0]] + s.drop_first().take(i) =~= s.take(i + 1));
            },
            None => {},
        }
    }
    if b == 0 {
        assert(s.take(0) =~= Seq::<char>::empty());
    }
}

/// In a text of one-byte chars, byte offset `k` is char index `k`.
pub proof fn lemma_ascii_char_index(s: Seq<char>, k: int)
    requires
        0 <= k <= s.len(),
        forall|i: int| 0 <= i < s.len() ==> utf8_len(#[trigger] s[i]) == 1,
    ensures
        char_index_at_byte(s, k) == Some(k),
    decreases k,
{
    if k > 0 {
        assert forall|i: int| 0 <= i < s.drop_first().len() implies utf8_len(
            #[trigger] s.drop_first()[i],
        ) == 1 by {
            assert(s.drop_first()[i] == s[i + 1]);
        }
        lemma_ascii_char_index(s.drop_first(), k - 1);
    }
}

pub proof fn lemma_byte_len_prepend(s: Seq<char>, c: char)
    ensures
        byte_len(seq![c] + s) == utf8_len(c) + byte_len(s),
    decreases s.len(),
{
    if s.len() == 0 {
        assert((seq![c] + s).drop_last() =~= Seq::<char>::empty());
        assert((seq![c] + s).last() == c);
        assert(byte_len(Seq::<char>::empty()) == 0);
    } else {
        lemma_byte_len_prepend(s.drop_last(), c);
        assert((seq![c] + s).drop_last() =~= seq![c] + s.drop_last());
        assert((seq![c] + s).last() == s.last());
    }
}

/// Char index of byte offset `b` in `v[lo..hi]` (relative to `lo`), if on a boundary.
pub fn char_index_at_byte_exec(v: &[char], lo: usize, hi: usize, b: usize) -> (r: Option<usize>)
    requires
        lo <= hi <= v@.len(),
    ensures
        r == opt_usize(char_index_at_byte(v@.subrange(lo as int, hi as int), b as int)),
        r matches Some(i) ==> i <= hi - lo,
{
    let mut i = lo;
    let mut rem = b;
    while rem > 0 && i < hi && utf8_len_exec(v[i]) <= rem
        invariant
            lo <= i <= hi <= v@.len(),
            rem <= b,
            char_index_at_byte(v@.subrange(lo as int, hi as int), b as int) == opt_shift(
                char_index_at_byte(v@.subrange(i as int, hi as int), rem as int),
                i - lo,
            ),
        decreases hi - i,
    {
        let ghost s = v@.subrange(i as int, hi as int);
        assert(s.drop_first() =~= v@.subrange(i + 1, hi as int));
        rem = rem - utf8_len_exec(v[i]);
        i += 1;
    }
    if rem == 0 {
        Some(i - lo)
    } else {
        None
    }
}

// ---------------------------------------------------------------------------
// MT940 dates
// ---------------------------------------------------------------------------

/// Year of a two-digit MT940 year: `YY < 80` is 20YY, otherwise 19YY.
pub open spec fn century_year(yy: int) -> int {
    if yy < 80 {
        2000 + yy
    } else {
        1900 + yy
    }
}

/// Every char of `s` is an ASCII digit.
pub open spec fn all_ascii_digits(s: Seq<char>) -> bool {
    forall|i: int| 0 <= i < s.len() ==> is_ascii_digit(#[trigger] s[i])
}

/// The number written by the two digits `s[i]`, `s[i + 1]`.
pub open spec fn two_digits(s: Seq<char>, i: int) -> int {
    digit_value(s[i]) * 10 + digit_value(s[i + 1])
}

/// `parse_mt940_date`: six ASCII digits `YYMMDD` naming a calendar day, with
/// the century cutoff on the year; any other text is no date.
pub open spec fn mt940_date(raw: Seq<char>) -> Option<DateV> {
    if raw.len() != 6 || !all_ascii_digits(raw) {
        None
    } else {
        let y = century_year(two_digits(raw, 0));
        let m = two_digits(raw, 2);
        let d = two_digits(raw, 4);
        if valid_ymd(y, m, d) {
            Some(date_v(y, m, d))
        } else {
            None
        }
    }
}

fn digit_u32(c: char) -> (n: u32)
    requires
        is_ascii_digit(c),
    ensures
        n == digit_value(c),
{
    c as u32 - '0' as u32
}

/// Parses `v[lo..hi]` as a `YYMMDD` date.
pub fn parse_date_range(v: &[char], lo: usize, hi: usize) -> (r: Option<Date>)
    requires
        lo <= hi <= v@.len(),
    ensures
        r.is_some() == mt940_date(v@.subrange(lo as int, hi as int)).is_some(),
        r matches Some(d) ==> d@ == mt940_date(v@.subrange(lo as int, hi as int))->0,
{
    let ghost s = v@.subrange(lo as int, hi as int);
    if hi - lo != 6 {
        return None;
    }
    let mut i = lo;
    while i < hi
        invariant
            lo <= i <= hi <= v@.len(),
            hi - lo == 6,
            s == v@.subrange(lo as int, hi as int),
            forall|j: int| lo <= j < i ==> is_ascii_digit(#[trigger] v@[j]),
        decreases hi - i,
    {
        if !('0' <= v[i] && v[i] <= '9') {
            assert(s[i - lo] == v@[i as int]);
            return None;
        }
        i += 1;
    }
    assert(all_ascii_digits(s)) by {
        assert forall|j: int| 0 <= j < s.len() implies is_ascii_digit(#[trigger] s[j]) by {
            assert(s[j] == v@[lo + j]);
        }
    }
    let yy = digit_u32(v[lo]) * 10 + digit_u32(v[lo + 1]);
    let m = digit_u32(v[lo + 2]) * 10 + digit_u32(v[lo + 3]);
    let d = digit_u32(v[lo + 4]) * 10 + digit_u32(v[lo + 5]);
    let year: i32 = if yy < 80 {
        2000 + yy as i32
    } else {
        1900 + yy as i32
    };
    assert(year == century_year(two_digits(s, 0)));
    assert(m == two_digits(s, 2) && d == two_digits(s, 4));
    Date::from_ymd_opt(year, m, d)
}

/// Parse an MT940 date string (`YYMMDD`).
///
/// All MT940 dates are six digits. Years follow the SWIFT century cutoff:
/// `YY < 80` is 20YY, `YY >= 80` is 19YY. `"260601"` is 2026-06-01,
/// `"991231"` is 1999-12-31; any other text is an invalid date.
pub fn parse_mt940_date(raw: &str) -> (r: Result<Date, ParseError>)
    ensures
        r is Ok <==> mt940_date(raw@) is Some,
        r matches Ok(d) ==> d@ == mt940_date(raw@)->0,
        r matches Err(e) ==> e@ == crate::error::invalid_date_v(raw@),
{
    let v = chars_of(raw);
    assert(v@.subrange(0, v@.len() as int) =~= v@);
    match parse_date_range(v.as_slice(), 0, v.len()) {
        Some(d) => Ok(d),
        None => Err(ParseError::InvalidDate { value: string_from(raw), tag: "(date field)" }),
    }
}

/// The month count of `(y, m)`, for comparing months across years.
pub open spec fn month_index(y: int, m: int) -> int {
    y * 12 + m
}

/// Entry date year rule: start from the value date's year (the next year
/// when the value date is December 31 and the entry month is before
/// December); when that date lies more than three months after the value
/// date take the year before, when more than three months before it the
/// year after.
pub open spec fn entry_year(vd: DateV, m: int, d: int) -> int {
    let y0 = if vd.month == 12 && vd.day == 31 && m < 12 {
        vd.year + 1
    } else {
        vd.year
    };
    let c = month_index(y0, m);
    let v = month_index(vd.year, vd.month);
    if c > v + 3 || (c == v + 3 && d > vd.day) {
        y0 - 1
    } else if c < v - 3 || (c == v - 3 && d < vd.day) {
        y0 + 1
    } else {
        y0
    }
}

/// Infer the entry date year from the value date.
///
/// Entry dates are given as MMDD; the year is the value date's year (the
/// next year after a December 31 value date with an entry month before
/// December), moved by one year towards the value date when the date is more
/// than three months away from it.
pub fn infer_entry_date(value_date: Date, entry_month: u32, entry_day: u32) -> (r: Option<Date>)
    ensures
        r is Some <==> valid_ymd(
            entry_year(value_date@, entry_month as int, entry_day as int),
            entry_month as int,
            entry_day as int,
        ),
        r matches Some(d) ==> d@ == date_v(
            entry_year(value_date@, entry_month as int, entry_day as int),
            entry_month as int,
            entry_day as int,
        ),
{
    let vy = value_date.year();
    let vm = value_date.month();
    let vdd = value_date.day();
    let y0: i32 = if vm == 12 && vdd == 31 && entry_month < 12 {
        vy + 1
    } else {
        vy
    };
    let c: i64 = y0 as i64 * 12 + entry_month as i64;
    let v: i64 = vy as i64 * 12 + vm as i64;
    let year: i32 = if c > v + 3 || (c == v + 3 && entry_day > vdd) {
        y0 - 1
    } else if c < v - 3 || (c == v - 3 && entry_day < vdd) {
        y0 + 1
    } else {
        y0
    };
    Date::from_ymd_opt(year, entry_month, entry_day)
}

} // verus!
