//! AngularDecoder: the `<DDVALUE<DDVALUE` and `^DDVALUE^DDVALUE` patterns.
use vstd::prelude::*;
use crate::models::FieldMap;
use crate::text::{chars_of, is_ascii_digit, split, split_range, string_from, string_of_range, trim,
    trim_range};
use super::{
    code_digits, code_digits_exec, insert_field, Tag86Decoder,
};

verus! {

/// Number of occurrences of `c` in `s`.
pub open spec fn count_char(s: Seq<char>, c: char) -> nat
    decreases s.len(),
{
    if s.len() == 0 {
        0
    } else {
        count_char(s.drop_last(), c) + if s.last() == c {
            1nat
        } else {
            0nat
        }
    }
}

/// `<` when it occurs at least as often as `^` (and at all), else `^` when it
/// occurs, else none.
pub open spec fn angular_delimiter(raw: Seq<char>) -> Option<char> {
    let lt = count_char(raw, '<');
    let hat = count_char(raw, '^');
    if lt >= hat && lt > 0 {
        Some('<')
    } else if hat > 0 {
        Some('^')
    } else {
        None
    }
}

/// Scanning chars from index `i`: some delimiter is followed by two ASCII
/// digits. Every occurrence of the delimiter is tested.
pub open spec fn angular_scan(s: Seq<char>, d: char, i: int) -> bool
    decreases s.len() - i,
{
    if i < 0 || i >= s.len() {
        false
    } else if s[i] == d && i + 2 < s.len() && is_ascii_digit(s[i + 1]) && is_ascii_digit(
        s[i + 2],
    ) {
        true
    } else {
        angular_scan(s, d, i + 1)
    }
}

/// Fields from `parts[0..n]`: the trimmed text before the first delimiter is
/// `tx_code` (when not empty); each segment starting with two digits maps
/// them to the trimmed rest.
pub open spec fn angular_fields(parts: Seq<Seq<char>>, n: int) -> Map<Seq<char>, Seq<char>>
    decreases n,
{
    if n <= 1 {
        let code = trim(parts[0]);
        if code.len() > 0 {
            Map::<Seq<char>, Seq<char>>::empty().insert("tx_code"@, code)
        } else {
            Map::empty()
        }
    } else {
        let m = angular_fields(parts, n - 1);
        let seg = parts[n - 1];
        if code_digits(seg) {
            m.insert(seg.take(2), trim(seg.skip(2)))
        } else {
            m
        }
    }
}

pub proof fn lemma_angular_fields_finite(parts: Seq<Seq<char>>, n: int)
    ensures
        angular_fields(parts, n).dom().finite(),
    decreases n,
{
    if n > 1 {
        lemma_angular_fields_finite(parts, n - 1);
    }
}

/// What the angular decoder gives for `raw`.
pub open spec fn angular_decode(raw: Seq<char>) -> Option<Map<Seq<char>, Seq<char>>> {
    match angular_delimiter(raw) {
        None => None,
        Some(d) => if !angular_scan(raw, d, 0) {
            None
        } else {
            let parts = split(raw, d);
            let m = angular_fields(parts, parts.len() as int);
            if m.len() == 0 || (m.len() == 1 && m.contains_key("tx_code"@)) {
                None
            } else {
                Some(m)
            }
        },
    }
}

/// Decodes Eastern European / Nordic Angular Tag 86 content.
///
/// The delimiter is `<` or `^`, whichever occurs more often (`<` on a tie).
/// Matches when some occurrence of the delimiter is followed by two ASCII
/// digits; every occurrence is tested. The trimmed
/// text before the first delimiter is the transaction type code
/// (`"tx_code"`); each later segment whose first two chars are digits maps
/// them to the trimmed rest.
///
/// ```text
/// Input:  010<00PRZELEW PRZYCHODZACY<20FAKTURA 1234/2026<27JOHN DOE SERVICES<30PL22103004
/// Output: {"tx_code": "010", "00": "PRZELEW PRZYCHODZACY",
///          "20": "FAKTURA 1234/2026", "27": "JOHN DOE SERVICES", "30": "PL22103004"}
/// ```
pub struct AngularDecoder;

fn count_char_exec(v: &[char], c: char) -> (n: usize)
    ensures
        n == count_char(v@, c),
{
    let mut n: usize = 0;
    let mut i: usize = 0;
    while i < v.len()
        invariant
            i <= v@.len(),
            n == count_char(v@.take(i as int), c),
            n <= i,
        decreases v@.len() - i,
    {
        proof {
            assert(v@.take(i + 1).drop_last() =~= v@.take(i as int));
        }
        if v[i] == c {
            n += 1;
        }
        i += 1;
    }
    assert(v@.take(v@.len() as int) =~= v@);
    n
}

fn angular_scan_exec(v: &[char], d: char) -> (b: bool)
    ensures
        b == angular_scan(v@, d, 0),
{
    let mut i: usize = 0;
    while i < v.len()
        invariant
            angular_scan(v@, d, 0) == angular_scan(v@, d, i as int),
        decreases v@.len() - i,
    {
        if v[i] == d && v.len() - i > 2 && '0' <= v[i + 1] && v[i + 1] <= '9' && '0' <= v[i + 2]
            && v[i + 2] <= '9' {
            return true;
        }
        i = i + 1;
    }
    false
}

/// The angular decoder on chars: a subfield code is the first two chars of
/// a segment.
pub fn angular_decode_chars(v: &[char]) -> (r: Option<FieldMap>)
    ensures
        crate::models::opt_map_v(r) == angular_decode(v@),
{
    let lt = count_char_exec(v, '<');
    let hat = count_char_exec(v, '^');
    let d = if lt >= hat && lt > 0 {
        '<'
    } else if hat > 0 {
        '^'
    } else {
        return None;
    };
    assert(angular_delimiter(v@) == Some(d));
    if !angular_scan_exec(v, d) {
        return None;
    }
    let parts = split_range(v, 0, v.len(), d);
    let ghost ps = split(v@, d);
    proof {
        assert(v@.subrange(0, v@.len() as int) =~= v@);
    }
    let mut fields = FieldMap::new();
    let (a0, b0) = parts[0];
    let (ca, cb) = trim_range(v, a0, b0);
    if cb > ca {
        fields.insert(string_from("tx_code"), string_of_range(v, ca, cb));
    }
    let mut j: usize = 1;
    while j < parts.len()
        invariant
            ps == split(v@, d),
            parts@.len() == ps.len(),
            1 <= j <= parts@.len(),
            forall|k: int|
                0 <= k < parts@.len() ==> (#[trigger] parts@[k]).0 <= parts@[k].1 <= v@.len()
                    && v@.subrange(parts@[k].0 as int, parts@[k].1 as int) == ps[k],
            fields@ == angular_fields(ps, j as int),
        decreases parts@.len() - j,
    {
        let (a, b) = parts[j];
        let ghost seg = ps[j as int];
        if code_digits_exec(v, a, b) {
            let (ta, tb) = trim_range(v, a + 2, b);
            proof {
                assert(v@.subrange(a + 2, b as int) =~= seg.skip(2));
                assert(v@.subrange(a as int, a + 2) =~= seg.take(2));
            }
            insert_field(&mut fields, v, a, a + 2, ta, tb);
        }
        j += 1;
    }
    let n = fields.len();
    if n == 0 || (n == 1 && fields.contains_key("tx_code")) {
        return None;
    }
    Some(fields)
}

impl Tag86Decoder for AngularDecoder {
    open spec fn decode_spec(&self, raw: Seq<char>) -> Option<Map<Seq<char>, Seq<char>>> {
        angular_decode(raw)
    }

    fn name(&self) -> (n: &'static str)
        ensures
            n@ == "angular"@,
    {
        "angular"
    }

    fn decode(&self, raw: &str) -> (r: Option<FieldMap>) {
        let v = chars_of(raw);
        angular_decode_chars(v.as_slice())
    }
}

} // verus!
