//! GermanGvcDecoder: the `GVC?DDVALUE?DDVALUE` pattern.
use vstd::prelude::*;
use crate::models::FieldMap;
use crate::text::{chars_of, is_ascii_digit, join, join_strings, split, split_range, string_from,
    string_of_range, trim, trim_range};
use super::{
    code_digits, code_digits_exec, insert_field, Tag86Decoder,
};

verus! {

/// Longest prefix of ASCII digits.
pub open spec fn leading_digits(s: Seq<char>) -> Seq<char>
    decreases s.len(),
{
    if s.len() > 0 && is_ascii_digit(s[0]) {
        seq![s[0]] + leading_digits(s.drop_first())
    } else {
        Seq::empty()
    }
}

/// The GVC fields read from the text before the first `?`.
pub open spec fn gvc_start(first: Seq<char>) -> Map<Seq<char>, Seq<char>> {
    let code = leading_digits(first);
    if code.len() > 0 {
        Map::<Seq<char>, Seq<char>>::empty().insert("gvc"@, code)
    } else {
        Map::empty()
    }
}

/// Fields and remittance lines (`?20`..`?29`, in order) from `parts[0..n]`.
pub open spec fn gvc_fields(parts: Seq<Seq<char>>, n: int) -> (
    Map<Seq<char>, Seq<char>>,
    Seq<Seq<char>>,
)
    decreases n,
{
    if n <= 1 {
        (gvc_start(parts[0]), Seq::empty())
    } else {
        let (m, remi) = gvc_fields(parts, n - 1);
        let seg = parts[n - 1];
        if code_digits(seg) {
            let value = trim(seg.skip(2));
            (
                m.insert(seg.take(2), value),
                if seg[0] == '2' {
                    remi.push(value)
                } else {
                    remi
                },
            )
        } else {
            (m, remi)
        }
    }
}

pub proof fn lemma_gvc_fields_finite(parts: Seq<Seq<char>>, n: int)
    ensures
        gvc_fields(parts, n).0.dom().finite(),
    decreases n,
{
    if n > 1 {
        lemma_gvc_fields_finite(parts, n - 1);
    }
}

/// A two-char subfield code of ASCII digits.
pub open spec fn is_subfield_code(k: Seq<char>) -> bool {
    k.len() == 2 && is_ascii_digit(k[0]) && is_ascii_digit(k[1])
}

/// Some segment of `parts[1..n]` is a `?2x` subfield.
pub open spec fn has_remittance_line(parts: Seq<Seq<char>>, n: int) -> bool {
    exists|j: int| 1 <= j < n && code_digits(#[trigger] parts[j]) && parts[j][0] == '2'
}

proof fn lemma_gvc_fields_shape(parts: Seq<Seq<char>>, n: int)
    requires
        1 <= n <= parts.len(),
    ensures
        gvc_fields(parts, n).1.len() > 0 <==> has_remittance_line(parts, n),
        forall|k: Seq<char>|
            #[trigger] gvc_fields(parts, n).0.contains_key(k) ==> k == "gvc"@ || is_subfield_code(
                k,
            ),
    decreases n,
{
    if n > 1 {
        lemma_gvc_fields_shape(parts, n - 1);
        let seg = parts[n - 1];
        if has_remittance_line(parts, n) && !has_remittance_line(parts, n - 1) {
            let j = choose|j: int| 1 <= j < n && code_digits(#[trigger] parts[j]) && parts[j][0]
                == '2';
            assert(j == n - 1);
        }
        if code_digits(seg) && seg[0] == '2' {
            assert(has_remittance_line(parts, n)) by {
                assert(code_digits(parts[n - 1]));
            }
        }
        if has_remittance_line(parts, n - 1) {
            let j = choose|j: int| 1 <= j < n - 1 && code_digits(#[trigger] parts[j]) && parts[j][0]
                == '2';
            assert(has_remittance_line(parts, n)) by {
                assert(code_digits(parts[j]));
            }
        }
    }
}

/// What the GVC decoder gives has only the keys `gvc`, two-digit subfield
/// codes and `REMI_COMBINED`; `REMI_COMBINED` is there exactly when some
/// `?2x` subfield occurs.
pub proof fn law_gvc_keys(raw: Seq<char>)
    ensures
        gvc_decode(raw) matches Some(m) ==> {
            let parts = split(raw, '?');
            &&& (m.contains_key("REMI_COMBINED"@) <==> has_remittance_line(
                parts,
                parts.len() as int,
            ))
            &&& forall|k: Seq<char>|
                #[trigger] m.contains_key(k) ==> k == "gvc"@ || k == "REMI_COMBINED"@
                    || is_subfield_code(k)
        },
{
    let parts = split(raw, '?');
    assert(parts.len() >= 1);
    lemma_gvc_fields_shape(parts, parts.len() as int);
    reveal_strlit("gvc");
    reveal_strlit("REMI_COMBINED");
    assert(!is_subfield_code("REMI_COMBINED"@));
    assert("REMI_COMBINED"@ != "gvc"@) by {
        assert("REMI_COMBINED"@.len() != "gvc"@.len());
    }
}

/// Some segment after a `?` starts with two ASCII digits.
pub open spec fn gvc_detected(parts: Seq<Seq<char>>) -> bool {
    exists|j: int| 1 <= j < parts.len() && code_digits(#[trigger] parts[j])
}

/// What the GVC decoder gives for `raw`.
pub open spec fn gvc_decode(raw: Seq<char>) -> Option<Map<Seq<char>, Seq<char>>> {
    let parts = split(raw, '?');
    if !gvc_detected(parts) {
        None
    } else {
        let (m, remi) = gvc_fields(parts, parts.len() as int);
        if m.len() == 0 {
            None
        } else if remi.len() > 0 {
            Some(m.insert("REMI_COMBINED"@, join(remi, seq![' '])))
        } else {
            Some(m)
        }
    }
}

/// Decodes German GVC (Geschaeftsvorfallcode) Tag 86 content.
///
/// Matches when a `?` is followed by two ASCII digits (the ZKA `?DD`
/// subfield pattern). The leading digits before the first `?` are the GVC
/// code (key `"gvc"`); each `?DD` segment maps `DD` to the trimmed rest.
/// Subfields `?20` through `?29` are also joined with spaces under
/// `"REMI_COMBINED"`.
///
/// ```text
/// Input:  166?00REMITTANCE?20INV-9924?21KREATOR ABSCHNITT 1?32ACME CORP GMBH
/// Output: {"gvc": "166", "00": "REMITTANCE", "20": "INV-9924",
///          "21": "KREATOR ABSCHNITT 1", "32": "ACME CORP GMBH",
///          "REMI_COMBINED": "INV-9924 KREATOR ABSCHNITT 1"}
/// ```
pub struct GermanGvcDecoder;

fn leading_digits_end(v: &[char], a: usize, b: usize) -> (e: usize)
    requires
        a <= b <= v@.len(),
    ensures
        a <= e <= b,
        v@.subrange(a as int, e as int) == leading_digits(v@.subrange(a as int, b as int)),
{
    let mut e = a;
    while e < b && '0' <= v[e] && v[e] <= '9'
        invariant
            a <= e <= b <= v@.len(),
            leading_digits(v@.subrange(a as int, b as int)) == v@.subrange(a as int, e as int)
                + leading_digits(v@.subrange(e as int, b as int)),
        decreases b - e,
    {
        proof {
            let s = v@.subrange(e as int, b as int);
            assert(s.drop_first() =~= v@.subrange(e + 1, b as int));
            assert(v@.subrange(a as int, e + 1) =~= v@.subrange(a as int, e as int) + seq![s[0]]);
        }
        e += 1;
    }
    proof {
        assert(v@.subrange(a as int, e as int) + Seq::<char>::empty() =~= v@.subrange(
            a as int,
            e as int,
        ));
    }
    e
}

/// The GVC decoder on chars: a subfield code is the first two chars of a
/// segment.
pub fn gvc_decode_chars(v: &[char]) -> (r: Option<FieldMap>)
    ensures
        crate::models::opt_map_v(r) == gvc_decode(v@),
{
    let parts = split_range(v, 0, v.len(), '?');
    let ghost ps = split(v@, '?');
    proof {
        assert(v@.subrange(0, v@.len() as int) =~= v@);
    }
    // detection
    let mut found = false;
    let mut j: usize = 1;
    while j < parts.len() && !found
        invariant
            ps == split(v@, '?'),
            parts@.len() == ps.len(),
            1 <= j <= parts@.len(),
            forall|k: int|
                0 <= k < parts@.len() ==> (#[trigger] parts@[k]).0 <= parts@[k].1 <= v@.len()
                    && v@.subrange(parts@[k].0 as int, parts@[k].1 as int) == ps[k],
            found ==> gvc_detected(ps),
            !found ==> forall|k: int| 1 <= k < j ==> !code_digits(#[trigger] ps[k]),
        decreases parts@.len() - j,
    {
        let (a, b) = parts[j];
        if code_digits_exec(v, a, b) {
            found = true;
        }
        j += 1;
    }
    if !found {
        return None;
    }
    // the GVC code
    let mut fields = FieldMap::new();
    let (a0, b0) = parts[0];
    let e0 = leading_digits_end(v, a0, b0);
    if e0 > a0 {
        fields.insert(string_from("gvc"), string_of_range(v, a0, e0));
    }
    let mut remi: Vec<String> = Vec::new();
    let mut j: usize = 1;
    while j < parts.len()
        invariant
            ps == split(v@, '?'),
            parts@.len() == ps.len(),
            1 <= j <= parts@.len(),
            forall|k: int|
                0 <= k < parts@.len() ==> (#[trigger] parts@[k]).0 <= parts@[k].1 <= v@.len()
                    && v@.subrange(parts@[k].0 as int, parts@[k].1 as int) == ps[k],
            (fields@, remi@.map_values(|s: String| s@)) == gvc_fields(ps, j as int),
        decreases parts@.len() - j,
    {
        let (a, b) = parts[j];
        let ghost seg = ps[j as int];
        if code_digits_exec(v, a, b) {
            let (ta, tb) = trim_range(v, a + 2, b);
            proof {
                assert(v@.subrange(a + 2, b as int) =~= seg.skip(2));
                assert(v@.subrange(a as int, a + 2) =~= seg.take(2));
            }
            insert_field(&mut fields, v, a, a + 2, ta, tb);
            if v[a] == '2' {
                let ghost before = remi@;
                remi.push(string_of_range(v, ta, tb));
                proof {
                    assert(remi@.map_values(|s: String| s@) =~= before.map_values(|s: String| s@).push(
                        trim(seg.skip(2)),
                    ));
                }
            }
        }
        j += 1;
    }
    if fields.is_empty() {
        return None;
    }
    if remi.len() > 0 {
        let joined = join_strings(&remi, " ");
        proof {
            reveal_strlit(" ");
            assert(" "@ =~= seq![' ']);
        }
        fields.insert(string_from("REMI_COMBINED"), joined);
    }
    Some(fields)
}

impl Tag86Decoder for GermanGvcDecoder {
    open spec fn decode_spec(&self, raw: Seq<char>) -> Option<Map<Seq<char>, Seq<char>>> {
        gvc_decode(raw)
    }

    fn name(&self) -> (n: &'static str)
        ensures
            n@ == "german-gvc"@,
    {
        "german-gvc"
    }

    fn decode(&self, raw: &str) -> (r: Option<FieldMap>) {
        let v = chars_of(raw);
        gvc_decode_chars(v.as_slice())
    }
}

} // verus!
