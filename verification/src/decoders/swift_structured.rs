//! SwiftStructuredDecoder: the `/KEYWORD/VALUE` pattern.
use vstd::prelude::*;
use crate::models::FieldMap;
use crate::text::{
    chars_of, contains, find_char, is_ascii_upper, lemma_find_char_char, occurs_at, split,
    split_range, str_contains, string_of_range, trim, trim_range,
};
use super::{insert_field, Tag86Decoder};

verus! {

/// The text holds one of the SWIFT subfield markers `/EREF/`, `/NAME/`,
/// `/REMI/`, `/BIC/`, `/IBAN/`.
pub open spec fn swift_detected(raw: Seq<char>) -> bool {
    ||| contains(raw, "/EREF/"@)
    ||| contains(raw, "/NAME/"@)
    ||| contains(raw, "/REMI/"@)
    ||| contains(raw, "/BIC/"@)
    ||| contains(raw, "/IBAN/"@)
}

/// A SWIFT subfield keyword: three or four ASCII uppercase letters.
pub open spec fn is_swift_keyword(k: Seq<char>) -> bool {
    3 <= k.len() <= 4 && forall|i: int| 0 <= i < k.len() ==> is_ascii_upper(#[trigger] k[i])
}

/// Fields of the `/KEYWORD/VALUE` pairs read left to right from segment
/// `i`: a keyword segment followed by a non-empty segment takes that
/// segment, trimmed, as its value and the reading goes on after that value;
/// any other segment is passed over. Of two pairs with the same keyword the
/// later one counts.
pub open spec fn swift_pairs(segs: Seq<Seq<char>>, i: int) -> Map<Seq<char>, Seq<char>>
    decreases segs.len() - i,
{
    if i < 0 || i + 1 >= segs.len() {
        Map::empty()
    } else if is_swift_keyword(segs[i]) && segs[i + 1].len() > 0 {
        let rest = swift_pairs(segs, i + 2);
        if rest.contains_key(segs[i]) {
            rest
        } else {
            rest.insert(segs[i], trim(segs[i + 1]))
        }
    } else {
        swift_pairs(segs, i + 1)
    }
}

pub proof fn lemma_swift_fields_finite(segs: Seq<Seq<char>>, i: int)
    ensures
        swift_pairs(segs, i).dom().finite(),
    decreases segs.len() - i,
{
    if i >= 0 && i + 1 < segs.len() {
        lemma_swift_fields_finite(segs, i + 2);
        lemma_swift_fields_finite(segs, i + 1);
    }
}

/// Splitting at the first `d`, which follows `a`.
proof fn lemma_split_first(a: Seq<char>, b: Seq<char>, d: char)
    requires
        forall|i: int| 0 <= i < a.len() ==> a[i] != d,
    ensures
        split(a + seq![d] + b, d) == seq![a] + split(b, d),
{
    let s = a + seq![d] + b;
    assert forall|j: int| 0 <= j < a.len() implies s[j] != d by {
        assert(s[j] == a[j]);
    }
    lemma_find_char_char(s, d, a.len() as int);
    assert(find_char(s, d) == Some(a.len() as int));
    assert(s.take(a.len() as int) =~= a);
    assert(s.skip(a.len() + 1int) =~= b);
}

/// A text without `d` is one piece.
proof fn lemma_split_whole(a: Seq<char>, d: char)
    requires
        forall|i: int| 0 <= i < a.len() ==> a[i] != d,
    ensures
        split(a, d) == seq![a],
{
    lemma_find_char_char(a, d, a.len() as int);
}

/// Every piece of `split(s, d)` occurs in `s`.
proof fn lemma_split_pieces_occur(s: Seq<char>, d: char)
    ensures
        forall|j: int| 0 <= j < split(s, d).len() ==> contains(s, #[trigger] split(s, d)[j]),
    decreases s.len(),
{
    crate::text::lemma_find_char(s, d);
    match find_char(s, d) {
        Some(i) => {
            let rest = s.skip(i + 1);
            lemma_split_pieces_occur(rest, d);
            assert forall|j: int| 0 <= j < split(s, d).len() implies contains(
                s,
                #[trigger] split(s, d)[j],
            ) by {
                if j == 0 {
                    assert(s.subrange(0, i) =~= s.take(i));
                    assert(occurs_at(s, s.take(i), 0));
                } else {
                    let piece = split(rest, d)[j - 1];
                    assert(split(s, d)[j] == piece);
                    assert(contains(rest, piece));
                    let q = choose|q: int| occurs_at(rest, piece, q);
                    assert(s.subrange(q + i + 1, q + i + 1 + piece.len()) =~= rest.subrange(
                        q,
                        q + piece.len(),
                    ));
                    assert(occurs_at(s, piece, q + i + 1));
                }
            }
        },
        None => {
            assert(occurs_at(s, s, 0)) by {
                assert(s.subrange(0, s.len() as int) =~= s);
            }
        },
    }
}

/// The keys that pairs read from segment `i` give are segments at `i` or later.
proof fn lemma_swift_pairs_keys(segs: Seq<Seq<char>>, i: int)
    requires
        0 <= i,
    ensures
        forall|k: Seq<char>|
            #[trigger] swift_pairs(segs, i).contains_key(k) ==> exists|j: int|
                i <= j < segs.len() && segs[j] == k,
    decreases segs.len() - i,
{
    if i + 1 < segs.len() {
        lemma_swift_pairs_keys(segs, i + 2);
        lemma_swift_pairs_keys(segs, i + 1);
        assert forall|k: Seq<char>| #[trigger] swift_pairs(segs, i).contains_key(k) implies exists|
            j: int,
        | i <= j < segs.len() && segs[j] == k by {
            if k == segs[i] {
                assert(segs[i] == k);
            } else if is_swift_keyword(segs[i]) && segs[i + 1].len() > 0 {
                assert(swift_pairs(segs, i + 2).contains_key(k));
                let j = choose|j: int| i + 2 <= j < segs.len() && segs[j] == k;
                assert(segs[j] == k);
            } else {
                assert(swift_pairs(segs, i + 1).contains_key(k));
                let j = choose|j: int| i + 1 <= j < segs.len() && segs[j] == k;
                assert(segs[j] == k);
            }
        }
    }
}

/// What the SWIFT decoder gives for `raw`.
pub open spec fn swift_decode(raw: Seq<char>) -> Option<Map<Seq<char>, Seq<char>>> {
    if !swift_detected(raw) {
        None
    } else {
        let segs = split(raw, '/');
        let f = swift_pairs(segs, 1);
        if f.len() == 0 {
            None
        } else {
            Some(f)
        }
    }
}

/// Every `/KEYWORD/VALUE` pair of a marker (`EREF`, `NAME`, `REMI`, `BIC`,
/// `IBAN`) is recognised: text `p` before the first `/`, the marker `k`, a
/// non-empty value `v` without `/`, and a rest `tail` that is empty or
/// starts with `/`, decode to a map holding `k`, whose value is `v` trimmed
/// unless `k` occurs again in `tail`.
pub proof fn law_swift_marker_recognised(p: Seq<char>, k: Seq<char>, v: Seq<char>, tail: Seq<char>)
    requires
        k == "EREF"@ || k == "NAME"@ || k == "REMI"@ || k == "BIC"@ || k == "IBAN"@,
        forall|i: int| 0 <= i < p.len() ==> p[i] != '/',
        v.len() > 0,
        forall|i: int| 0 <= i < v.len() ==> v[i] != '/',
        tail.len() == 0 || tail[0] == '/',
    ensures
        ({
            let raw = p + seq!['/'] + k + seq!['/'] + v + tail;
            &&& swift_decode(raw) is Some
            &&& swift_decode(raw)->0.contains_key(k)
            &&& !contains(tail, k) ==> swift_decode(raw)->0[k] == trim(v)
        }),
{
    reveal_strlit("EREF");
    reveal_strlit("NAME");
    reveal_strlit("REMI");
    reveal_strlit("BIC");
    reveal_strlit("IBAN");
    reveal_strlit("/EREF/");
    reveal_strlit("/NAME/");
    reveal_strlit("/REMI/");
    reveal_strlit("/BIC/");
    reveal_strlit("/IBAN/");
    let raw = p + seq!['/'] + k + seq!['/'] + v + tail;
    assert(is_swift_keyword(k));
    assert forall|i: int| 0 <= i < k.len() implies k[i] != '/' by {
        assert(is_ascii_upper(k[i]));
    }
    // the segments
    let rest_t: Seq<Seq<char>> = if tail.len() == 0 {
        Seq::empty()
    } else {
        split(tail.drop_first(), '/')
    };
    assert(raw =~= p + seq!['/'] + (k + seq!['/'] + (v + tail)));
    lemma_split_first(p, k + seq!['/'] + (v + tail), '/');
    lemma_split_first(k, v + tail, '/');
    if tail.len() == 0 {
        assert(v + tail =~= v);
        lemma_split_whole(v, '/');
    } else {
        assert(v + tail =~= v + seq!['/'] + tail.drop_first());
        lemma_split_first(v, tail.drop_first(), '/');
    }
    let segs = split(raw, '/');
    assert(segs =~= seq![p, k, v] + rest_t);
    // detection
    let marker = seq!['/'] + k + seq!['/'];
    assert(raw.subrange(p.len() as int, p.len() + marker.len() as int) =~= marker);
    assert(occurs_at(raw, marker, p.len() as int));
    if k == "EREF"@ {
        assert(marker =~= "/EREF/"@);
    } else if k == "NAME"@ {
        assert(marker =~= "/NAME/"@);
    } else if k == "REMI"@ {
        assert(marker =~= "/REMI/"@);
    } else if k == "BIC"@ {
        assert(marker =~= "/BIC/"@);
    } else {
        assert(marker =~= "/IBAN/"@);
    }
    assert(swift_detected(raw));
    // the pair
    let m = swift_pairs(segs, 1);
    assert(segs[1] == k && segs[2] == v);
    assert(m.contains_key(k));
    lemma_swift_fields_finite(segs, 1);
    if m.dom().len() == 0 {
        m.dom().lemma_len0_is_empty();
        assert(!m.dom().contains(k));
    }
    if !contains(tail, k) {
        lemma_swift_pairs_keys(segs, 3);
        if swift_pairs(segs, 3).contains_key(k) {
            let j = choose|j: int| 3 <= j < segs.len() && segs[j] == k;
            assert(tail.len() > 0);
            lemma_split_pieces_occur(tail.drop_first(), '/');
            assert(segs[j] == rest_t[j - 3]);
            assert(contains(tail.drop_first(), k));
            let q = choose|q: int| occurs_at(tail.drop_first(), k, q);
            assert(tail.subrange(q + 1, q + 1 + k.len()) =~= tail.drop_first().subrange(
                q,
                q + k.len(),
            ));
            assert(occurs_at(tail, k, q + 1));
        }
    }
}

/// Decodes SWIFT-structured Tag 86 content using the /KEYWORD/VALUE pattern.
///
/// Matches when the input contains /EREF/, /NAME/, /REMI/, /BIC/ or /IBAN/.
/// The text is split on `/`; read left to right after the first `/`, a
/// segment of three or four uppercase ASCII letters followed by a non-empty
/// segment is a keyword whose value is that segment, trimmed, and reading
/// resumes after that value (the pattern `/([A-Z]{3,4})/([^/]+)`, matched
/// without overlap).
///
/// ```text
/// Input:  /EREF/INV-2026-991/REMI/MONTHLY RETAINER FEES/NAME/ALPHA DIGITAL CORP
/// Output: {"EREF": "INV-2026-991", "REMI": "MONTHLY RETAINER FEES", "NAME": "ALPHA DIGITAL CORP"}
/// ```
pub struct SwiftStructuredDecoder;

fn is_keyword_range(v: &[char], a: usize, b: usize) -> (r: bool)
    requires
        a <= b <= v@.len(),
    ensures
        r == is_swift_keyword(v@.subrange(a as int, b as int)),
{
    let n = b - a;
    if n < 3 || n > 4 {
        return false;
    }
    let mut i = a;
    while i < b
        invariant
            a <= i <= b <= v@.len(),
            forall|j: int| a <= j < i ==> is_ascii_upper(v@[j]),
        decreases b - i,
    {
        if !('A' <= v[i] && v[i] <= 'Z') {
            proof {
                assert(v@.subrange(a as int, b as int)[i - a] == v@[i as int]);
            }
            return false;
        }
        i += 1;
    }
    proof {
        let k = v@.subrange(a as int, b as int);
        assert forall|j: int| 0 <= j < k.len() implies is_ascii_upper(#[trigger] k[j]) by {
            assert(k[j] == v@[a + j]);
        }
    }
    true
}

/// The SWIFT decoder on chars.
pub fn swift_decode_chars(v: &[char]) -> (r: Option<FieldMap>)
    ensures
        crate::models::opt_map_v(r) == swift_decode(v@),
{
    let detected = str_contains(v, "/EREF/") || str_contains(v, "/NAME/") || str_contains(
        v,
        "/REMI/",
    ) || str_contains(v, "/BIC/") || str_contains(v, "/IBAN/");
    if !detected {
        return None;
    }
    let segs = split_range(v, 0, v.len(), '/');
    let ghost ss = split(v@, '/');
    proof {
        assert(v@.subrange(0, v@.len() as int) =~= v@);
    }
    let mut fields = FieldMap::new();
    assert(fields@.union_prefer_right(swift_pairs(ss, 1)) =~= swift_pairs(ss, 1));
    let mut i: usize = 1;
    while i < segs.len() - 1
        invariant
            ss == split(v@, '/'),
            segs@.len() == ss.len(),
            segs@.len() >= 1,
            1 <= i <= segs@.len(),
            forall|k: int|
                0 <= k < segs@.len() ==> (#[trigger] segs@[k]).0 <= segs@[k].1 <= v@.len()
                    && v@.subrange(segs@[k].0 as int, segs@[k].1 as int) == ss[k],
            fields@.union_prefer_right(swift_pairs(ss, i as int)) == swift_pairs(ss, 1),
        decreases segs@.len() - i,
    {
        let (ka, kb) = segs[i];
        let (va, vb) = segs[i + 1];
        if vb > va && is_keyword_range(v, ka, kb) {
            let (ta, tb) = trim_range(v, va, vb);
            let ghost before = fields@;
            insert_field(&mut fields, v, ka, kb, ta, tb);
            proof {
                let k = ss[i as int];
                let rest = swift_pairs(ss, i + 2);
                assert(before.union_prefer_right(swift_pairs(ss, i as int)) =~= fields@.union_prefer_right(
                    rest,
                ));
            }
            i += 2;
        } else {
            i += 1;
        }
    }
    assert(swift_pairs(ss, i as int) =~= Map::<Seq<char>, Seq<char>>::empty());
    assert(fields@.union_prefer_right(swift_pairs(ss, i as int)) =~= fields@);
    if fields.is_empty() {
        return None;
    }
    Some(fields)
}

impl Tag86Decoder for SwiftStructuredDecoder {
    open spec fn decode_spec(&self, raw: Seq<char>) -> Option<Map<Seq<char>, Seq<char>>> {
        swift_decode(raw)
    }

    fn name(&self) -> (n: &'static str)
        ensures
            n@ == "swift-structured"@,
    {
        "swift-structured"
    }

    fn decode(&self, raw: &str) -> (r: Option<FieldMap>) {
        let v = chars_of(raw);
        swift_decode_chars(v.as_slice())
    }
}

} // verus!
