//! Character-level text model shared by the tokenizer, the tag parsers and
//! the Tag 86 decoders.
//!
//! Text is handled as sequences of `char`s (the view of `str` and `String`).
//! Where the parsing rules count or cut UTF-8 bytes, the byte length of a
//! prefix is computed from the chars with `utf8_len`.
use vstd::prelude::*;
use vstd::std_specs::iter::IteratorSpec;

verus! {

/// `String::push` appends one char.
pub assume_specification[ String::push ](s: &mut String, ch: char)
    ensures
        final(s)@ == old(s)@.push(ch),
;

// ---------------------------------------------------------------------------
// Character classes
// ---------------------------------------------------------------------------

pub open spec fn is_ascii_digit(c: char) -> bool {
    '0' <= c && c <= '9'
}

pub open spec fn is_ascii_upper(c: char) -> bool {
    'A' <= c && c <= 'Z'
}

pub open spec fn is_ascii_lower(c: char) -> bool {
    'a' <= c && c <= 'z'
}

pub open spec fn is_ascii_alnum(c: char) -> bool {
    is_ascii_digit(c) || is_ascii_upper(c) || is_ascii_lower(c)
}

/// The Unicode `White_Space` property, as used by `char::is_whitespace`.
pub open spec fn is_whitespace(c: char) -> bool {
    let u = c as u32;
    ||| (0x09 <= u && u <= 0x0d)
    ||| u == 0x20
    ||| u == 0x85
    ||| u == 0xa0
    ||| u == 0x1680
    ||| (0x2000 <= u && u <= 0x200a)
    ||| u == 0x2028
    ||| u == 0x2029
    ||| u == 0x202f
    ||| u == 0x205f
    ||| u == 0x3000
}

pub fn is_whitespace_exec(c: char) -> (b: bool)
    ensures
        b == is_whitespace(c),
{
    let u = c as u32;
    (0x09 <= u && u <= 0x0d) || u == 0x20 || u == 0x85 || u == 0xa0 || u == 0x1680 || (0x2000
        <= u && u <= 0x200a) || u == 0x2028 || u == 0x2029 || u == 0x202f || u == 0x205f || u
        == 0x3000
}

/// Number of bytes of the UTF-8 encoding of `c`.
pub open spec fn utf8_len(c: char) -> nat {
    let u = c as u32;
    if u < 0x80 {
        1
    } else if u < 0x800 {
        2
    } else if u < 0x10000 {
        3
    } else {
        4
    }
}

pub fn utf8_len_exec(c: char) -> (n: usize)
    ensures
        n == utf8_len(c),
{
    let u = c as u32;
    if u < 0x80 {
        1
    } else if u < 0x800 {
        2
    } else if u < 0x10000 {
        3
    } else {
        4
    }
}

/// Number of bytes of the UTF-8 encoding of `s` (what `str::len` returns).
pub open spec fn byte_len(s: Seq<char>) -> nat
    decreases s.len(),
{
    if s.len() == 0 {
        0
    } else {
        byte_len(s.drop_last()) + utf8_len(s.last())
    }
}

pub proof fn lemma_byte_len_ge_len(s: Seq<char>)
    ensures
        byte_len(s) >= s.len(),
    decreases s.len(),
{
    if s.len() > 0 {
        lemma_byte_len_ge_len(s.drop_last());
    }
}

pub proof fn lemma_byte_len_push(s: Seq<char>, c: char)
    ensures
        byte_len(s.push(c)) == byte_len(s) + utf8_len(c),
{
    assert(s.push(c).drop_last() =~= s);
}

// ---------------------------------------------------------------------------
// Conversions between `str`, `String` and `Vec<char>`
// ---------------------------------------------------------------------------

/// `s == lit`, comparing texts.
pub fn str_is(s: &str, lit: &str) -> (b: bool)
    ensures
        b == (s@ == lit@),
{
    let a = chars_of(s);
    let l = chars_of(lit);
    if a.len() != l.len() {
        return false;
    }
    let mut i: usize = 0;
    while i < a.len()
        invariant
            a@ == s@,
            l@ == lit@,
            a@.len() == l@.len(),
            i <= a@.len(),
            forall|j: int| 0 <= j < i ==> a@[j] == l@[j],
        decreases a@.len() - i,
    {
        if a[i] != l[i] {
            proof {
                assert(a@[i as int] != l@[i as int]);
            }
            return false;
        }
        i += 1;
    }
    assert(a@ =~= l@);
    true
}

pub fn chars_of(s: &str) -> (r: Vec<char>)
    ensures
        r@ == s@,
{
    let mut out: Vec<char> = Vec::new();
    for c in iter: s.chars()
        invariant
            iter.seq() == s@,
            out@ == s@.take(iter.index() as int),
    {
        out.push(c);
    }
    out
}

pub fn string_of_range(v: &[char], lo: usize, hi: usize) -> (r: String)
    requires
        lo <= hi <= v@.len(),
    ensures
        r@ == v@.subrange(lo as int, hi as int),
{
    let mut s = String::new();
    let mut i: usize = lo;
    while i < hi
        invariant
            lo <= i <= hi <= v@.len(),
            s@ == v@.subrange(lo as int, i as int),
        decreases hi - i,
    {
        s.push(v[i]);
        assert(v@.subrange(lo as int, i + 1) == v@.subrange(lo as int, i as int).push(v@[i as int]));
        i += 1;
    }
    s
}

pub fn string_from(s: &str) -> (r: String)
    ensures
        r@ == s@,
{
    s.to_owned()
}

pub fn push_str_chars(s: &mut String, v: &[char], lo: usize, hi: usize)
    requires
        lo <= hi <= v@.len(),
    ensures
        final(s)@ == old(s)@ + v@.subrange(lo as int, hi as int),
{
    let mut i: usize = lo;
    while i < hi
        invariant
            lo <= i <= hi <= v@.len(),
            s@ == old(s)@ + v@.subrange(lo as int, i as int),
        decreases hi - i,
    {
        s.push(v[i]);
        assert(v@.subrange(lo as int, i + 1) == v@.subrange(lo as int, i as int).push(v@[i as int]));
        i += 1;
    }
}

pub fn push_str(s: &mut String, t: &str)
    ensures
        final(s)@ == old(s)@ + t@,
{
    let v = chars_of(t);
    push_str_chars(s, v.as_slice(), 0, v.len());
    assert(v@.subrange(0, v@.len() as int) == v@);
}

/// Byte length of a char range (what `str::len` gives for that text).
pub fn byte_len_range(v: &[char], lo: usize, hi: usize) -> (n: usize)
    requires
        lo <= hi <= v@.len(),
        hi - lo <= usize::MAX / 4,
    ensures
        n == byte_len(v@.subrange(lo as int, hi as int)),
{
    let mut n: usize = 0;
    let mut i: usize = lo;
    while i < hi
        invariant
            lo <= i <= hi <= v@.len(),
            hi - lo <= usize::MAX / 4,
            n == byte_len(v@.subrange(lo as int, i as int)),
            n <= 4 * (i - lo),
        decreases hi - i,
    {
        proof {
            lemma_byte_len_push(v@.subrange(lo as int, i as int), v@[i as int]);
            assert(v@.subrange(lo as int, i + 1) == v@.subrange(lo as int, i as int).push(
                v@[i as int],
            ));
        }
        n = n + utf8_len_exec(v[i]);
        i += 1;
    }
    n
}

/// `min(byte_len(v[lo..hi]), cap)`: the byte length, counted no further than `cap`.
pub fn byte_len_capped(v: &[char], lo: usize, hi: usize, cap: usize) -> (n: usize)
    requires
        lo <= hi <= v@.len(),
        cap <= usize::MAX - 4,
    ensures
        n == if byte_len(v@.subrange(lo as int, hi as int)) < cap {
            byte_len(v@.subrange(lo as int, hi as int))
        } else {
            cap as nat
        },
{
    let ghost s = v@.subrange(lo as int, hi as int);
    let mut n: usize = 0;
    let mut i: usize = lo;
    while i < hi && n < cap
        invariant
            lo <= i <= hi <= v@.len(),
            cap <= usize::MAX - 4,
            n == byte_len(v@.subrange(lo as int, i as int)),
            n <= cap + 3,
        decreases hi - i,
    {
        proof {
            lemma_byte_len_push(v@.subrange(lo as int, i as int), v@[i as int]);
            assert(v@.subrange(lo as int, i + 1) == v@.subrange(lo as int, i as int).push(
                v@[i as int],
            ));
        }
        n = n + utf8_len_exec(v[i]);
        i += 1;
    }
    proof {
        assert(s == v@.subrange(lo as int, i as int) + v@.subrange(i as int, hi as int));
        lemma_byte_len_concat(v@.subrange(lo as int, i as int), v@.subrange(i as int, hi as int));
    }
    if n < cap {
        n
    } else {
        cap
    }
}

pub proof fn lemma_byte_len_concat(a: Seq<char>, b: Seq<char>)
    ensures
        byte_len(a + b) == byte_len(a) + byte_len(b),
    decreases b.len(),
{
    if b.len() == 0 {
        assert(a + b =~= a);
    } else {
        lemma_byte_len_concat(a, b.drop_last());
        assert((a + b).drop_last() =~= a + b.drop_last());
    }
}

/// A text whose byte length equals its char count is all ASCII (one byte per char).
pub proof fn lemma_byte_len_eq_len(s: Seq<char>)
    requires
        byte_len(s) == s.len(),
    ensures
        forall|i: int| 0 <= i < s.len() ==> utf8_len(#[trigger] s[i]) == 1,
    decreases s.len(),
{
    if s.len() > 0 {
        lemma_byte_len_ge_len(s.drop_last());
        lemma_byte_len_eq_len(s.drop_last());
        assert forall|i: int| 0 <= i < s.len() implies utf8_len(#[trigger] s[i]) == 1 by {
            if i < s.len() - 1 {
                assert(s[i] == s.drop_last()[i]);
            }
        }
    }
}

// ---------------------------------------------------------------------------
// Trimming
// ---------------------------------------------------------------------------

pub open spec fn trim_start(s: Seq<char>) -> Seq<char>
    decreases s.len(),
{
    if s.len() > 0 && is_whitespace(s[0]) {
        trim_start(s.drop_first())
    } else {
        s
    }
}

pub open spec fn trim_end(s: Seq<char>) -> Seq<char>
    decreases s.len(),
{
    if s.len() > 0 && is_whitespace(s.last()) {
        trim_end(s.drop_last())
    } else {
        s
    }
}

/// `str::trim`: strip leading and trailing whitespace.
pub open spec fn trim(s: Seq<char>) -> Seq<char> {
    trim_end(trim_start(s))
}

/// Strip every trailing occurrence of `c` (`str::trim_end_matches` with a char).
pub open spec fn trim_end_char(s: Seq<char>, c: char) -> Seq<char>
    decreases s.len(),
{
    if s.len() > 0 && s.last() == c {
        trim_end_char(s.drop_last(), c)
    } else {
        s
    }
}

/// Strip every leading occurrence of `c` (`str::trim_start_matches` with a char).
pub open spec fn trim_start_char(s: Seq<char>, c: char) -> Seq<char>
    decreases s.len(),
{
    if s.len() > 0 && s[0] == c {
        trim_start_char(s.drop_first(), c)
    } else {
        s
    }
}

/// Bounds of `trim` applied to `v[lo..hi]`.
pub fn trim_range(v: &[char], lo: usize, hi: usize) -> (r: (usize, usize))
    requires
        lo <= hi <= v@.len(),
    ensures
        lo <= r.0 <= r.1 <= hi,
        v@.subrange(r.0 as int, r.1 as int) == trim(v@.subrange(lo as int, hi as int)),
{
    let mut a = lo;
    while a < hi && is_whitespace_exec(v[a])
        invariant
            lo <= a <= hi <= v@.len(),
            trim_start(v@.subrange(lo as int, hi as int)) == trim_start(
                v@.subrange(a as int, hi as int),
            ),
        decreases hi - a,
    {
        assert(v@.subrange(a as int, hi as int).drop_first() == v@.subrange(a + 1, hi as int));
        a += 1;
    }
    assert(trim_start(v@.subrange(a as int, hi as int)) == v@.subrange(a as int, hi as int));
    let mut b = hi;
    while b > a && is_whitespace_exec(v[b - 1])
        invariant
            lo <= a <= b <= hi <= v@.len(),
            trim(v@.subrange(lo as int, hi as int)) == trim_end(v@.subrange(a as int, b as int)),
        decreases b - a,
    {
        assert(v@.subrange(a as int, b as int).drop_last() == v@.subrange(a as int, b - 1));
        b -= 1;
    }
    (a, b)
}

/// Number of leading chars of `v[lo..hi]` equal to `c`.
pub fn trim_start_char_range(v: &[char], lo: usize, hi: usize, c: char) -> (a: usize)
    requires
        lo <= hi <= v@.len(),
    ensures
        lo <= a <= hi,
        v@.subrange(a as int, hi as int) == trim_start_char(v@.subrange(lo as int, hi as int), c),
{
    let mut a = lo;
    while a < hi && v[a] == c
        invariant
            lo <= a <= hi <= v@.len(),
            trim_start_char(v@.subrange(lo as int, hi as int), c) == trim_start_char(
                v@.subrange(a as int, hi as int),
                c,
            ),
        decreases hi - a,
    {
        assert(v@.subrange(a as int, hi as int).drop_first() == v@.subrange(a + 1, hi as int));
        a += 1;
    }
    a
}

pub fn trim_end_char_range(v: &[char], lo: usize, hi: usize, c: char) -> (b: usize)
    requires
        lo <= hi <= v@.len(),
    ensures
        lo <= b <= hi,
        v@.subrange(lo as int, b as int) == trim_end_char(v@.subrange(lo as int, hi as int), c),
{
    let mut b = hi;
    while b > lo && v[b - 1] == c
        invariant
            lo <= b <= hi <= v@.len(),
            trim_end_char(v@.subrange(lo as int, hi as int), c) == trim_end_char(
                v@.subrange(lo as int, b as int),
                c,
            ),
        decreases b - lo,
    {
        assert(v@.subrange(lo as int, b as int).drop_last() == v@.subrange(lo as int, b - 1));
        b -= 1;
    }
    b
}

// ---------------------------------------------------------------------------
// Searching and splitting
// ---------------------------------------------------------------------------

/// Index of the first occurrence of `c` in `s`.
pub open spec fn find_char(s: Seq<char>, c: char) -> Option<int>
    decreases s.len(),
{
    if s.len() == 0 {
        None
    } else if s[0] == c {
        Some(0)
    } else {
        match find_char(s.drop_first(), c) {
            Some(i) => Some(i + 1),
            None => None,
        }
    }
}

pub proof fn lemma_find_char(s: Seq<char>, c: char)
    ensures
        match find_char(s, c) {
            Some(i) => 0 <= i < s.len() && s[i] == c && forall|j: int| 0 <= j < i ==> s[j] != c,
            None => forall|j: int| 0 <= j < s.len() ==> s[j] != c,
        },
    decreases s.len(),
{
    if s.len() > 0 && s[0] != c {
        lemma_find_char(s.drop_first(), c);
        match find_char(s.drop_first(), c) {
            Some(i) => {
                assert forall|j: int| 0 <= j < i + 1 implies s[j] != c by {
                    if j > 0 {
                        assert(s[j] == s.drop_first()[j - 1]);
                    }
                }
            },
            None => {
                assert forall|j: int| 0 <= j < s.len() implies s[j] != c by {
                    if j > 0 {
                        assert(s[j] == s.drop_first()[j - 1]);
                    }
                }
            },
        }
    }
}

pub proof fn lemma_find_char_char(s: Seq<char>, c: char, i: int)
    requires
        0 <= i <= s.len(),
        i < s.len() ==> s[i] == c,
        forall|j: int| 0 <= j < i ==> s[j] != c,
    ensures
        find_char(s, c) == if i < s.len() {
            Some(i)
        } else {
            None::<int>
        },
{
    lemma_find_char(s, c);
}

/// First index `i` in `lo..hi` with `v[i] == c`, relative to `lo`.
pub fn find_char_range(v: &[char], lo: usize, hi: usize, c: char) -> (r: Option<usize>)
    requires
        lo <= hi <= v@.len(),
    ensures
        match r {
            Some(i) => lo <= i < hi && find_char(v@.subrange(lo as int, hi as int), c) == Some(
                i - lo,
            ),
            None => find_char(v@.subrange(lo as int, hi as int), c) == None::<int>,
        },
{
    let mut i = lo;
    while i < hi
        invariant
            lo <= i <= hi <= v@.len(),
            forall|j: int| lo <= j < i ==> v@[j] != c,
        decreases hi - i,
    {
        if v[i] == c {
            proof {
                lemma_find_char_char(v@.subrange(lo as int, hi as int), c, i - lo);
            }
            return Some(i);
        }
        i += 1;
    }
    proof {
        lemma_find_char_char(v@.subrange(lo as int, hi as int), c, hi - lo);
    }
    None
}

/// `str::split` with a single-char pattern.
pub open spec fn split(s: Seq<char>, d: char) -> Seq<Seq<char>>
    decreases s.len(),
{
    match find_char(s, d) {
        Some(i) => if 0 <= i < s.len() {
            seq![s.take(i)] + split(s.skip(i + 1), d)
        } else {
            seq![s]
        },
        None => seq![s],
    }
}

/// Bounds of the pieces of `split(v[lo..hi], d)`.
pub fn split_range(v: &[char], lo: usize, hi: usize, d: char) -> (r: Vec<(usize, usize)>)
    requires
        lo <= hi <= v@.len(),
    ensures
        r@.len() == split(v@.subrange(lo as int, hi as int), d).len(),
        r@.len() >= 1,
        forall|k: int|
            0 <= k < r@.len() ==> lo <= (#[trigger] r@[k]).0 <= r@[k].1 <= hi && v@.subrange(
                r@[k].0 as int,
                r@[k].1 as int,
            ) == split(v@.subrange(lo as int, hi as int), d)[k],
{
    let mut out: Vec<(usize, usize)> = Vec::new();
    let mut start = lo;
    loop
        invariant
            lo <= start <= hi <= v@.len(),
            split(v@.subrange(lo as int, hi as int), d) =~= out@.map_values(
                |p: (usize, usize)| v@.subrange(p.0 as int, p.1 as int),
            ) + split(v@.subrange(start as int, hi as int), d),
            forall|k: int| 0 <= k < out@.len() ==> lo <= (#[trigger] out@[k]).0 <= out@[k].1 <= hi,
        decreases hi - start,
    {
        let ghost rest = v@.subrange(start as int, hi as int);
        proof {
            lemma_find_char(rest, d);
        }
        match find_char_range(v, start, hi, d) {
            Some(i) => {
                proof {
                    assert(rest.take(i - start) =~= v@.subrange(start as int, i as int));
                    assert(rest.skip(i - start + 1) =~= v@.subrange(i + 1, hi as int));
                    assert(split(rest, d) == seq![rest.take(i - start)] + split(
                        rest.skip(i - start + 1),
                        d,
                    ));
                }
                let ghost old_out = out@;
                out.push((start, i));
                proof {
                    assert(out@.map_values(|p: (usize, usize)| v@.subrange(p.0 as int, p.1 as int))
                        =~= old_out.map_values(
                        |p: (usize, usize)| v@.subrange(p.0 as int, p.1 as int),
                    ).push(v@.subrange(start as int, i as int)));
                }
                start = i + 1;
            },
            None => {
                let ghost old_out = out@;
                out.push((start, hi));
                proof {
                    assert(split(rest, d) == seq![rest]);
                    assert(out@.map_values(|p: (usize, usize)| v@.subrange(p.0 as int, p.1 as int))
                        =~= old_out.map_values(
                        |p: (usize, usize)| v@.subrange(p.0 as int, p.1 as int),
                    ).push(v@.subrange(start as int, hi as int)));
                    let m = out@.map_values(|p: (usize, usize)| v@.subrange(p.0 as int, p.1 as int));
                    assert forall|k: int| 0 <= k < out@.len() implies v@.subrange(
                        out@[k].0 as int,
                        out@[k].1 as int,
                    ) == split(v@.subrange(lo as int, hi as int), d)[k] by {
                        assert(m[k] == v@.subrange(out@[k].0 as int, out@[k].1 as int));
                    }
                }
                return out;
            },
        }
    }
}

/// `pat` occurs in `s` at index `i`.
pub open spec fn occurs_at(s: Seq<char>, pat: Seq<char>, i: int) -> bool {
    0 <= i && i + pat.len() <= s.len() && s.subrange(i, i + pat.len()) == pat
}

/// `str::contains` with a string pattern.
pub open spec fn contains(s: Seq<char>, pat: Seq<char>) -> bool {
    exists|i: int| occurs_at(s, pat, i)
}

pub fn occurs_at_exec(v: &[char], lo: usize, hi: usize, pat: &[char], i: usize) -> (b: bool)
    requires
        lo <= i <= hi <= v@.len(),
    ensures
        b == occurs_at(v@.subrange(lo as int, hi as int), pat@, i - lo),
{
    if pat.len() > hi - i {
        return false;
    }
    let mut k: usize = 0;
    while k < pat.len()
        invariant
            lo <= i <= hi <= v@.len(),
            pat@.len() <= hi - i,
            k <= pat@.len(),
            forall|j: int| 0 <= j < k ==> v@[i + j] == pat@[j],
        decreases pat@.len() - k,
    {
        if v[i + k] != pat[k] {
            proof {
                let s = v@.subrange(lo as int, hi as int);
                if occurs_at(s, pat@, i - lo) {
                    assert(s.subrange(i - lo, i - lo + pat@.len())[k as int] == pat@[k as int]);
                }
            }
            return false;
        }
        k += 1;
    }
    proof {
        let s = v@.subrange(lo as int, hi as int);
        assert(s.subrange(i - lo, i - lo + pat@.len()) =~= pat@);
    }
    true
}

pub fn contains_exec(v: &[char], lo: usize, hi: usize, pat: &[char]) -> (b: bool)
    requires
        lo <= hi <= v@.len(),
    ensures
        b == contains(v@.subrange(lo as int, hi as int), pat@),
{
    let ghost s = v@.subrange(lo as int, hi as int);
    let mut i = lo;
    while pat.len() <= hi - i
        invariant
            lo <= i <= hi,
            hi <= v@.len(),
            s == v@.subrange(lo as int, hi as int),
            forall|j: int| 0 <= j < i - lo ==> !occurs_at(s, pat@, j),
        decreases hi - i,
    {
        if occurs_at_exec(v, lo, hi, pat, i) {
            return true;
        }
        if i == hi {
            proof {
                assert forall|j: int| !occurs_at(s, pat@, j) by {
                    if 0 <= j && j + pat@.len() <= s.len() && j >= i - lo {
                        assert(j == i - lo);
                    }
                }
            }
            return false;
        }
        i += 1;
    }
    proof {
        assert forall|j: int| !occurs_at(s, pat@, j) by {
            if 0 <= j && j + pat@.len() <= s.len() && j >= i - lo {
                assert(j + pat@.len() > s.len());
            }
        }
    }
    false
}

pub fn str_contains(s: &[char], pat: &str) -> (b: bool)
    ensures
        b == contains(s@, pat@),
{
    let p = chars_of(pat);
    let b = contains_exec(s, 0, s.len(), p.as_slice());
    assert(s@.subrange(0, s@.len() as int) == s@);
    b
}

/// Concatenate `parts` with `sep` between consecutive elements (`[String]::join`).
pub open spec fn join(parts: Seq<Seq<char>>, sep: Seq<char>) -> Seq<char>
    decreases parts.len(),
{
    if parts.len() == 0 {
        Seq::empty()
    } else if parts.len() == 1 {
        parts[0]
    } else {
        join(parts.drop_last(), sep) + sep + parts.last()
    }
}

pub fn join_strings(parts: &Vec<String>, sep: &str) -> (r: String)
    ensures
        r@ == join(parts@.map_values(|p: String| p@), sep@),
{
    let ghost views = parts@.map_values(|p: String| p@);
    let mut r = String::new();
    let mut i: usize = 0;
    while i < parts.len()
        invariant
            i <= parts@.len(),
            views == parts@.map_values(|p: String| p@),
            r@ == join(views.take(i as int), sep@),
        decreases parts@.len() - i,
    {
        if i > 0 {
            push_str(&mut r, sep);
        }
        push_str(&mut r, parts[i].as_str());
        proof {
            let t = views.take(i + 1);
            assert(t.drop_last() =~= views.take(i as int));
            if i == 0 {
                assert(views.take(0) =~= Seq::<Seq<char>>::empty());
            }
        }
        i += 1;
    }
    assert(views.take(parts@.len() as int) =~= views);
    r
}

} // verus!
