//! Exact decimal amounts: the `Amount` type (what `rust_decimal::Decimal`
//! holds) and the MT940 comma-decimal amount parser.
use vstd::prelude::*;
use rust_decimal::Decimal;
use crate::dates::{all_ascii_digits, decimal_text, digits_value, zero_pad};
use crate::error::ParseError;
use crate::text::{
    chars_of, find_char, find_char_range, is_ascii_digit, lemma_find_char, push_str_chars,
    string_from, trim_start_char, trim_start_char_range,
};

verus! {

/// Abstract value of an [`Amount`]: `(-1)^negative * mantissa / 10^scale`.
pub struct AmountV {
    pub negative: bool,
    pub mantissa: nat,
    pub scale: nat,
}

/// `2^96`, the bound of a decimal mantissa.
pub open spec fn mantissa_bound() -> nat {
    0x1_0000_0000_0000_0000_0000_0000
}

pub open spec fn amount_wf(a: AmountV) -> bool {
    a.mantissa < mantissa_bound() && a.scale <= 28
}

/// The signed numeric value scaled by `10^scale` (the sign of zero is dropped).
pub open spec fn signed_mantissa(a: AmountV) -> int {
    if a.negative {
        -(a.mantissa as int)
    } else {
        a.mantissa as int
    }
}

/// An exact decimal number: the sign, 96-bit mantissa and scale of a
/// `rust_decimal::Decimal`.
#[derive(Debug, Clone, Copy)]
pub struct Amount {
    negative: bool,
    mantissa: u128,
    scale: u32,
}

impl View for Amount {
    type V = AmountV;

    closed spec fn view(&self) -> AmountV {
        AmountV {
            negative: self.negative,
            mantissa: self.mantissa as nat,
            scale: self.scale as nat,
        }
    }
}

/// The text `rust_decimal::Decimal` parses from `s` (`Decimal::from_str`).
pub uninterp spec fn decimal_from_str(s: Seq<char>) -> Option<AmountV>;

/// Text of a decimal as `Decimal`'s `Display` writes it, with an optional
/// precision: the sign, the integer digits (at least `0`), then the fraction
/// truncated or zero-extended to the precision (the scale when none is given).
pub open spec fn decimal_display(a: AmountV, precision: Option<nat>) -> Seq<char> {
    let raw_digits = if a.mantissa == 0 {
        Seq::<char>::empty()
    } else {
        decimal_text(a.mantissa)
    };
    let digits = zero_pad(raw_digits, a.scale);
    let whole_len = digits.len() - a.scale;
    let whole = digits.take(whole_len);
    let available = digits.skip(whole_len);
    let p = match precision {
        Some(p) => p,
        None => a.scale,
    };
    let frac = if p <= a.scale {
        available.take(p as int)
    } else {
        available + Seq::new((p - a.scale) as nat, |i: int| '0')
    };
    let int_text = if whole.len() == 0 {
        seq!['0']
    } else {
        whole
    };
    let body = if p > 0 {
        int_text + seq!['.'] + frac
    } else {
        int_text
    };
    if a.negative {
        seq!['-'] + body
    } else {
        body
    }
}

/// No minus sign in `s`.
pub open spec fn no_minus(s: Seq<char>) -> bool {
    forall|i: int| 0 <= i < s.len() ==> s[i] != '-'
}

/// A text of ASCII digits, a point, and ASCII digits.
pub open spec fn plain_decimal_text(int_part: Seq<char>, frac: Seq<char>) -> bool {
    &&& int_part.len() >= 1
    &&& frac.len() >= 1
    &&& int_part.len() + frac.len() <= 28
    &&& forall|i: int| 0 <= i < int_part.len() ==> is_ascii_digit(#[trigger] int_part[i])
    &&& forall|i: int| 0 <= i < frac.len() ==> is_ascii_digit(#[trigger] frac[i])
}

/// Calls `<rust_decimal::Decimal as FromStr>::from_str` and reads the parsed
/// number's sign, mantissa and scale. Claimed: the result is named by
/// `decimal_from_str`; a parsed decimal has a mantissa below `2^96` and a scale
/// of at most 28 (the representation `Decimal` has); and a text of at most 28
/// ASCII digits with one point inside gives that number exactly, unsigned, with
/// the count of digits after the point as scale (`parse_str_radix_10`); and a
/// text without a minus sign gives no negative decimal (only a leading `-`
/// sets the sign, in `parse_str_radix_10` and in the base of
/// `from_scientific_lossy`). What it gives for other texts (signs, `_`
/// separators, exponents, rounding beyond 28 digits) is left to the name.
#[verifier::external_body]
fn decimal_parse(s: &str) -> (r: Option<Amount>)
    ensures
        r is Some <==> decimal_from_str(s@) is Some,
        r matches Some(a) ==> a@ == decimal_from_str(s@)->0,
        r matches Some(a) ==> amount_wf(a@),
        forall|int_part: Seq<char>, frac: Seq<char>|
            plain_decimal_text(int_part, frac) && s@ == int_part + seq!['.'] + frac
                ==> r is Some && r->0@ == (AmountV {
                negative: false,
                mantissa: digits_value(int_part + frac)->0 as nat,
                scale: frac.len(),
            }),
        no_minus(s@) ==> (r matches Some(a) ==> !a@.negative),
{
    match s.parse::<Decimal>() {
        Ok(d) => Some(
            Amount {
                negative: d.is_sign_negative(),
                mantissa: d.mantissa().unsigned_abs(),
                scale: d.scale(),
            },
        ),
        Err(_) => None,
    }
}

/// Calls `Decimal::from_parts` and `Decimal::set_sign_negative` to rebuild the
/// decimal, then formats it with `Display`. Claimed: the text is
/// `decimal_display` without precision (`rust_decimal`'s `to_str_internal`
/// then `pad_integral`).
#[verifier::external_body]
fn decimal_format(negative: bool, mantissa: u128, scale: u32) -> (s: String)
    requires
        amount_wf(AmountV { negative, mantissa: mantissa as nat, scale: scale as nat }),
    ensures
        s@ == decimal_display(
            AmountV { negative, mantissa: mantissa as nat, scale: scale as nat },
            None,
        ),
{
    let mut d = Decimal::from_parts(
        mantissa as u32,
        (mantissa >> 32) as u32,
        (mantissa >> 64) as u32,
        false,
        scale,
    );
    d.set_sign_negative(negative);
    format!("{}", d)
}

/// As `decimal_format`, with the precision `precision` (`format!("{:.*}", ..)`).
/// Claimed: the text is `decimal_display` with that precision.
#[verifier::external_body]
fn decimal_format_precision(negative: bool, mantissa: u128, scale: u32, precision: usize) -> (s:
    String)
    requires
        amount_wf(AmountV { negative, mantissa: mantissa as nat, scale: scale as nat }),
    ensures
        s@ == decimal_display(
            AmountV { negative, mantissa: mantissa as nat, scale: scale as nat },
            Some(precision as nat),
        ),
{
    let mut d = Decimal::from_parts(
        mantissa as u32,
        (mantissa >> 32) as u32,
        (mantissa >> 64) as u32,
        false,
        scale,
    );
    d.set_sign_negative(negative);
    format!("{:.*}", precision, d)
}

impl Amount {
    #[verifier::type_invariant]
    closed spec fn inv(self) -> bool {
        amount_wf(self@)
    }

    /// Zero (what `Decimal::default()` is).
    pub fn zero() -> (a: Amount)
        ensures
            a@ == (AmountV { negative: false, mantissa: 0, scale: 0 }),
    {
        Amount { negative: false, mantissa: 0, scale: 0 }
    }

    /// Parses decimal text as `Decimal::from_str` does.
    pub fn parse(s: &str) -> (r: Option<Amount>)
        ensures
            r is Some <==> decimal_from_str(s@) is Some,
            r matches Some(a) ==> a@ == decimal_from_str(s@)->0,
    {
        decimal_parse(s)
    }

    /// The sign flipped (what `-d` does to a `Decimal`, zero included).
    pub fn neg(&self) -> (a: Amount)
        ensures
            a@ == (AmountV { negative: !self@.negative, ..self@ }),
    {
        proof {
            use_type_invariant(self);
        }
        Amount { negative: !self.negative, mantissa: self.mantissa, scale: self.scale }
    }

    pub fn is_sign_negative(&self) -> (b: bool)
        ensures
            b == self@.negative,
    {
        self.negative
    }

    pub fn mantissa(&self) -> (m: u128)
        ensures
            m == self@.mantissa,
            amount_wf(self@),
    {
        proof {
            use_type_invariant(self);
        }
        self.mantissa
    }

    pub fn scale(&self) -> (s: u32)
        ensures
            s == self@.scale,
            amount_wf(self@),
    {
        proof {
            use_type_invariant(self);
        }
        self.scale
    }

    /// Decimal text (`Decimal`'s `Display`, e.g. `"1500.00"`).
    pub fn to_string(&self) -> (s: String)
        ensures
            s@ == decimal_display(self@, None),
    {
        proof {
            use_type_invariant(self);
        }
        decimal_format(self.negative, self.mantissa, self.scale)
    }

    /// Decimal text with exactly two decimals (`format!("{:.2}", d)`).
    pub fn to_string_2dp(&self) -> (s: String)
        ensures
            s@ == decimal_display(self@, Some(2)),
    {
        proof {
            use_type_invariant(self);
        }
        decimal_format_precision(self.negative, self.mantissa, self.scale, 2)
    }
}

// ---------------------------------------------------------------------------
// MT940 amounts
// ---------------------------------------------------------------------------

/// `format!("{:0<2}", s)`: `s` right-padded with `'0'` to at least two chars.
pub open spec fn pad_right_2(s: Seq<char>) -> Seq<char> {
    if s.len() >= 2 {
        s
    } else {
        s + Seq::new((2 - s.len()) as nat, |i: int| '0')
    }
}

/// The integer and decimal digits of an MT940 amount
/// `integer_part[,decimal_part]`: at least one ASCII digit, then optionally
/// a comma and at most two ASCII digits. `None` for any other text.
pub open spec fn amount_parts(raw: Seq<char>) -> Option<(Seq<char>, Seq<char>)> {
    match find_char(raw, ',') {
        None => if raw.len() > 0 && all_ascii_digits(raw) {
            Some((raw, Seq::<char>::empty()))
        } else {
            None
        },
        Some(c) => {
            let int_part = raw.take(c);
            let frac = raw.skip(c + 1);
            if int_part.len() > 0 && all_ascii_digits(int_part) && frac.len() <= 2
                && all_ascii_digits(frac) {
                Some((int_part, frac))
            } else {
                None
            }
        },
    }
}

/// The integer digits without leading zeros (`0` when nothing is left).
pub open spec fn int_digits(int_part: Seq<char>) -> Seq<char> {
    let t = trim_start_char(int_part, '0');
    if t.len() == 0 {
        seq!['0']
    } else {
        t
    }
}

/// The decimal text an MT940 amount is rewritten to before `Decimal` parses
/// it: the integer digits, a point, and the decimal digits padded to two.
pub open spec fn mt940_amount_text(int_part: Seq<char>, frac: Seq<char>) -> Seq<char> {
    int_digits(int_part) + seq!['.'] + pad_right_2(frac)
}

/// `parse_mt940_amount`: the decimal an MT940 amount denotes, if any.
pub open spec fn mt940_amount(raw: Seq<char>) -> Option<AmountV> {
    match amount_parts(raw) {
        None => None,
        Some((int_part, frac)) => decimal_from_str(mt940_amount_text(int_part, frac)),
    }
}

/// The exact value of a well-formed amount: its digits (leading zeros
/// aside, decimals padded to two) as mantissa, with two decimals.
pub open spec fn mt940_amount_value(raw: Seq<char>) -> AmountV {
    match amount_parts(raw) {
        Some((int_part, frac)) => AmountV {
            negative: false,
            mantissa: digits_value(int_digits(int_part) + pad_right_2(frac))->0 as nat,
            scale: 2,
        },
        None => AmountV { negative: false, mantissa: 0, scale: 2 },
    }
}

/// `raw` is a well-formed amount with at most 26 integer digits (leading
/// zeros aside), which `Decimal` holds exactly.
pub open spec fn amount_fits(raw: Seq<char>) -> bool {
    amount_parts(raw) matches Some((i, f)) && int_digits(i).len() <= 26
}

/// Parse an MT940 amount string to an exact decimal.
///
/// MT940 uses **comma** as the decimal separator, with 0-2 decimal digits:
/// `"50000,00"` is 50000.00, `"1250,5"` is 1250.50 (trailing zero implied),
/// `"100,"` is 100.00. Any other text is an invalid amount.
pub fn parse_mt940_amount(raw: &str) -> (r: Result<Amount, ParseError>)
    ensures
        r is Ok <==> mt940_amount(raw@) is Some,
        r matches Ok(a) ==> a@ == mt940_amount(raw@)->0,
        r matches Ok(a) ==> !a@.negative,
        r matches Err(e) ==> e@ == crate::error::invalid_amount_v(raw@),
        amount_fits(raw@) ==> (r matches Ok(a) && a@ == mt940_amount_value(raw@)),
{
    let v = chars_of(raw);
    assert(v@.subrange(0, v@.len() as int) =~= v@);
    match parse_amount_chars(v.as_slice(), 0, v.len()) {
        Some(a) => Ok(a),
        None => Err(ParseError::InvalidAmount { value: string_from(raw), tag: "(amount field)" }),
    }
}

/// `v[lo..hi]` is all ASCII digits.
fn all_digits_range(v: &[char], lo: usize, hi: usize) -> (b: bool)
    requires
        lo <= hi <= v@.len(),
    ensures
        b == all_ascii_digits(v@.subrange(lo as int, hi as int)),
{
    let mut i = lo;
    while i < hi
        invariant
            lo <= i <= hi <= v@.len(),
            forall|j: int| lo <= j < i ==> is_ascii_digit(#[trigger] v@[j]),
        decreases hi - i,
    {
        if !('0' <= v[i] && v[i] <= '9') {
            assert(v@.subrange(lo as int, hi as int)[i - lo] == v@[i as int]);
            return false;
        }
        i += 1;
    }
    assert forall|j: int| 0 <= j < hi - lo implies is_ascii_digit(
        #[trigger] v@.subrange(lo as int, hi as int)[j],
    ) by {
        assert(v@.subrange(lo as int, hi as int)[j] == v@[lo + j]);
    }
    true
}

/// `parse_mt940_amount` on the chars `v[lo..hi]`.
pub fn parse_amount_chars(v: &[char], lo: usize, hi: usize) -> (r: Option<Amount>)
    requires
        lo <= hi <= v@.len(),
    ensures
        r is Some <==> mt940_amount(v@.subrange(lo as int, hi as int)) is Some,
        r matches Some(a) ==> a@ == mt940_amount(v@.subrange(lo as int, hi as int))->0,
        r matches Some(a) ==> !a@.negative,
        amount_fits(v@.subrange(lo as int, hi as int)) ==> (r matches Some(a) && a@
            == mt940_amount_value(v@.subrange(lo as int, hi as int))),
{
    let ghost raw = v@.subrange(lo as int, hi as int);
    let (ie, fs) = match find_char_range(v, lo, hi, ',') {
        Some(c) => {
            proof {
                lemma_find_char(raw, ',');
                assert(raw.take(c - lo) =~= v@.subrange(lo as int, c as int));
                assert(raw.skip(c - lo + 1) =~= v@.subrange(c + 1, hi as int));
            }
            (c, c + 1)
        },
        None => {
            assert(v@.subrange(hi as int, hi as int) =~= Seq::<char>::empty());
            (hi, hi)
        },
    };
    if ie == lo || hi - fs > 2 || !all_digits_range(v, lo, ie) || !all_digits_range(v, fs, hi) {
        return None;
    }
    let ghost ip = v@.subrange(lo as int, ie as int);
    let ghost fp = v@.subrange(fs as int, hi as int);
    assert(amount_parts(raw) == Some((ip, fp)));
    let ia = trim_start_char_range(v, lo, ie, '0');
    let mut text: String = String::new();
    if ia == ie {
        text.push('0');
    } else {
        push_str_chars(&mut text, v, ia, ie);
    }
    let ghost int_text = text@;
    assert(int_text == int_digits(ip));
    text.push('.');
    push_str_chars(&mut text, v, fs, hi);
    if hi - fs < 2 {
        text.push('0');
    }
    if hi - fs < 1 {
        text.push('0');
    }
    proof {
        let p2 = pad_right_2(fp);
        if fp.len() == 0 {
            assert(p2 =~= seq!['0', '0']);
        } else if fp.len() == 1 {
            assert(p2 =~= fp + seq!['0']);
        }
        assert(text@ =~= mt940_amount_text(ip, fp));
        assert(all_ascii_digits(p2)) by {
            assert forall|j: int| 0 <= j < p2.len() implies is_ascii_digit(#[trigger] p2[j]) by {
                if j < fp.len() {
                    assert(fp[j] == v@[fs + j]);
                }
            }
        }
        assert(all_ascii_digits(int_text)) by {
            assert forall|j: int| 0 <= j < int_text.len() implies is_ascii_digit(
                #[trigger] int_text[j],
            ) by {
                if ia < ie {
                    assert(int_text[j] == v@[ia + j]);
                    assert(ip[ia - lo + j] == v@[ia + j]);
                }
            }
        }
        assert(no_minus(text@)) by {
            assert forall|j: int| 0 <= j < text@.len() implies text@[j] != '-' by {
                if j < int_text.len() {
                    assert(text@[j] == int_text[j]);
                } else if j > int_text.len() {
                    assert(text@[j] == p2[j - int_text.len() - 1]);
                }
            }
        }
        if int_text.len() <= 26 {
            assert(plain_decimal_text(int_text, p2));
        }
    }
    decimal_parse(text.as_str())
}

} // verus!
