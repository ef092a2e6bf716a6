//! Tag 86 dialect decoders.
//!
//! Each decoder attempts to parse a raw :86: text block into structured
//! key-value pairs. Decoders run **per-transaction**: a single MT940 statement
//! can contain transactions from multiple dialects. The decoder chain tries
//! each decoder in sequence; the first decoder that returns a result wins for
//! that specific transaction.
//!
//! Auto-detect order:
//! 1. SwiftStructuredDecoder: /KEYWORD/VALUE pattern
//! 2. GermanGvcDecoder: GVC?DDVALUE?DDVALUE pattern
//! 3. AngularDecoder: <DDVALUE<DDVALUE or ^DDVALUE^DDVALUE pattern
//! 4. UnstructuredDecoder: always matches (safety net, last in chain)
use vstd::prelude::*;
use crate::models::{
    details_counter_iban, details_purpose, counter_iban_of, lookup, purpose_of, FieldMap,
};
use crate::text::{chars_of, str_is, is_ascii_digit, push_str, string_of_range};

pub mod angular;
pub mod german_gvc;
pub mod swift_structured;
pub mod unstructured;

pub use self::angular::AngularDecoder;
pub use self::german_gvc::GermanGvcDecoder;
pub use self::swift_structured::SwiftStructuredDecoder;
pub use self::unstructured::UnstructuredDecoder;

verus! {

/// Trait for Tag 86 narrative decoders.
///
/// Each dialect implements this trait with its own parsing logic.
/// A decoder that doesn't recognize the input returns None,
/// allowing the chain to try the next decoder.
pub trait Tag86Decoder {
    /// The fields the decoder reads from `raw`, or `None` where it does not
    /// recognize the format.
    spec fn decode_spec(&self, raw: Seq<char>) -> Option<Map<Seq<char>, Seq<char>>>;

    /// Attempt to parse a raw Tag 86 block into structured key-value pairs.
    ///
    /// Returns `None` if this decoder doesn't recognize the format,
    /// allowing fallback to the next decoder in the chain.
    fn decode(&self, raw: &str) -> (r: Option<FieldMap>)
        ensures
            crate::models::opt_map_v(r) == self.decode_spec(raw@),
    ;

    /// Human-readable name for logging and debugging.
    fn name(&self) -> &'static str;
}

// ---------------------------------------------------------------------------
// Shared segment rules
// ---------------------------------------------------------------------------

/// A segment that starts with two ASCII digits (a `DD` subfield code).
pub open spec fn code_digits(seg: Seq<char>) -> bool {
    seg.len() >= 2 && is_ascii_digit(seg[0]) && is_ascii_digit(seg[1])
}

pub fn code_digits_exec(v: &[char], a: usize, b: usize) -> (r: bool)
    requires
        a <= b <= v@.len(),
    ensures
        r == code_digits(v@.subrange(a as int, b as int)),
{
    b - a >= 2 && '0' <= v[a] && v[a] <= '9' && '0' <= v[a + 1] && v[a + 1] <= '9'
}

/// Inserts `v[ka..kb] -> v[va..vb]`.
pub fn insert_field(m: &mut FieldMap, v: &[char], ka: usize, kb: usize, va: usize, vb: usize)
    requires
        ka <= kb <= v@.len(),
        va <= vb <= v@.len(),
    ensures
        final(m)@ == old(m)@.insert(
            v@.subrange(ka as int, kb as int),
            v@.subrange(va as int, vb as int),
        ),
{
    let k = string_of_range(v, ka, kb);
    let val = string_of_range(v, va, vb);
    m.insert(k, val);
}

// ---------------------------------------------------------------------------
// The decoder chain
// ---------------------------------------------------------------------------

/// The decoders a chain can hold.
#[derive(Debug, Clone, Copy, PartialEq, Eq, Structural)]
pub enum DecoderKind {
    SwiftStructured,
    GermanGvc,
    Angular,
    Unstructured,
}

/// What decoder `k` gives for `raw`.
pub open spec fn kind_decode(k: DecoderKind, raw: Seq<char>) -> Option<Map<Seq<char>, Seq<char>>> {
    match k {
        DecoderKind::SwiftStructured => swift_structured::swift_decode(raw),
        DecoderKind::GermanGvc => german_gvc::gvc_decode(raw),
        DecoderKind::Angular => angular::angular_decode(raw),
        DecoderKind::Unstructured => Some(unstructured::unstructured_decode(raw)),
    }
}

/// The result of the first decoder of `ks` that recognizes `raw`.
pub open spec fn chain_decode(ks: Seq<DecoderKind>, raw: Seq<char>) -> Map<Seq<char>, Seq<char>>
    decreases ks.len(),
{
    if ks.len() == 0 {
        Map::empty()
    } else {
        match kind_decode(ks[0], raw) {
            Some(m) => m,
            None => chain_decode(ks.drop_first(), raw),
        }
    }
}

/// The full auto-detect order.
pub open spec fn auto_kinds() -> Seq<DecoderKind> {
    seq![
        DecoderKind::SwiftStructured,
        DecoderKind::GermanGvc,
        DecoderKind::Angular,
        DecoderKind::Unstructured,
    ]
}

/// A chain of Tag 86 decoders tried in order.
///
/// `auto()` uses all four decoders; `with_resolver()` prioritizes a specific
/// dialect while keeping the unstructured fallback as a safety net.
#[derive(Debug)]
pub struct DecoderChain {
    decoders: Vec<DecoderKind>,
}

impl View for DecoderChain {
    type V = Seq<DecoderKind>;

    closed spec fn view(&self) -> Seq<DecoderKind> {
        self.decoders@
    }
}

/// The chain ends with the unstructured decoder.
pub open spec fn chain_wf(ks: Seq<DecoderKind>) -> bool {
    ks.len() >= 1 && ks.last() == DecoderKind::Unstructured
}

impl DecoderChain {
    #[verifier::type_invariant]
    closed spec fn inv(self) -> bool {
        chain_wf(self.decoders@)
    }

    /// Full auto-detect chain: all four decoders in priority order.
    pub fn auto() -> (c: DecoderChain)
        ensures
            c@ == auto_kinds(),
    {
        let mut decoders: Vec<DecoderKind> = Vec::new();
        decoders.push(DecoderKind::SwiftStructured);
        decoders.push(DecoderKind::GermanGvc);
        decoders.push(DecoderKind::Angular);
        decoders.push(DecoderKind::Unstructured);
        assert(decoders@ =~= auto_kinds());
        DecoderChain { decoders }
    }

    fn with_primary(primary: DecoderKind) -> (c: DecoderChain)
        ensures
            c@ == seq![primary, DecoderKind::Unstructured],
    {
        let mut decoders: Vec<DecoderKind> = Vec::new();
        decoders.push(primary);
        decoders.push(DecoderKind::Unstructured);
        assert(decoders@ =~= seq![primary, DecoderKind::Unstructured]);
        DecoderChain { decoders }
    }

    /// Explicit resolver: chosen decoder + unstructured safety net.
    ///
    /// Resolver values: `"swift"`, `"gvc"`, `"angular"` give the chosen
    /// decoder followed by `UnstructuredDecoder`; `"auto"` gives `auto()`;
    /// any other value gives `None`.
    pub fn with_resolver(resolver: &str) -> (r: Option<DecoderChain>)
        ensures
            resolver@ == "swift"@ ==> (r matches Some(c) && c@ == seq![
                DecoderKind::SwiftStructured,
                DecoderKind::Unstructured,
            ]),
            resolver@ == "gvc"@ ==> (r matches Some(c) && c@ == seq![
                DecoderKind::GermanGvc,
                DecoderKind::Unstructured,
            ]),
            resolver@ == "angular"@ ==> (r matches Some(c) && c@ == seq![
                DecoderKind::Angular,
                DecoderKind::Unstructured,
            ]),
            resolver@ == "auto"@ ==> (r matches Some(c) && c@ == auto_kinds()),
            r is Some <==> (resolver@ == "swift"@ || resolver@ == "gvc"@ || resolver@
                == "angular"@ || resolver@ == "auto"@),
    {
        proof {
            reveal_strlit("swift");
            reveal_strlit("gvc");
            reveal_strlit("angular");
            reveal_strlit("auto");
            assert("swift"@.len() == 5);
            assert("gvc"@.len() == 3);
            assert("angular"@.len() == 7);
            assert("auto"@.len() == 4);
            assert("gvc"@ != "auto"@) by {
                assert("gvc"@[0] != "auto"@[0]);
            }
        }
        if str_is(resolver, "swift") {
            Some(Self::with_primary(DecoderKind::SwiftStructured))
        } else if str_is(resolver, "gvc") {
            Some(Self::with_primary(DecoderKind::GermanGvc))
        } else if str_is(resolver, "angular") {
            Some(Self::with_primary(DecoderKind::Angular))
        } else if str_is(resolver, "auto") {
            Some(Self::auto())
        } else {
            None
        }
    }

    /// Decode a raw Tag 86 text block.
    ///
    /// Returns the parsed key-value pairs from the first decoder that
    /// matches, or the raw text under the `"detail"` key from
    /// `UnstructuredDecoder` (which always matches as the last decoder).
    pub fn decode(&self, raw: &str) -> (m: FieldMap)
        ensures
            m@ == chain_decode(self@, raw@),
    {
        proof {
            use_type_invariant(self);
        }
        let v = chars_of(raw);
        let ghost ks = self.decoders@;
        let n = self.decoders.len();
        let mut i: usize = 0;
        assert(ks.skip(0) =~= ks);
        loop
            invariant
                ks == self.decoders@,
                n == ks.len(),
                chain_wf(ks),
                v@ == raw@,
                i < ks.len(),
                chain_decode(ks, raw@) == chain_decode(ks.skip(i as int), raw@),
            decreases ks.len() - i,
        {
            let k = self.decoders[i];
            let ghost rest = ks.skip(i as int);
            assert(rest[0] == k);
            assert(rest.drop_first() =~= ks.skip(i + 1));
            let res: Option<FieldMap> = match k {
                DecoderKind::SwiftStructured => swift_structured::swift_decode_chars(v.as_slice()),
                DecoderKind::GermanGvc => german_gvc::gvc_decode_chars(v.as_slice()),
                DecoderKind::Angular => angular::angular_decode_chars(v.as_slice()),
                DecoderKind::Unstructured => Some(unstructured::unstructured_fields(raw)),
            };
            if let Some(m) = res {
                return m;
            }
            proof {
                assert(k != DecoderKind::Unstructured);
                assert(ks[ks.len() - 1] == DecoderKind::Unstructured);
                assert(ks[i as int] == k);
                assert(i + 1 < ks.len());
            }
            i += 1;
        }
    }
}

/// A chain that ends with the unstructured decoder always yields fields, and
/// never an empty map.
pub proof fn law_chain_decode_nonempty(ks: Seq<DecoderKind>, raw: Seq<char>)
    requires
        chain_wf(ks),
    ensures
        chain_decode(ks, raw).len() > 0,
    decreases ks.len(),
{
    lemma_decode_results_nonempty(raw);
    if ks.len() > 1 {
        assert(chain_wf(ks.drop_first()));
        if kind_decode(ks[0], raw) is None {
            law_chain_decode_nonempty(ks.drop_first(), raw);
        }
    } else {
        assert(ks[0] == DecoderKind::Unstructured);
    }
}

/// Every decoder result that is present holds at least one field.
pub proof fn lemma_decode_results_nonempty(raw: Seq<char>)
    ensures
        forall|k: DecoderKind|
            (#[trigger] kind_decode(k, raw)) matches Some(m) ==> m.dom().finite() && m.len() > 0,
{
    assert forall|k: DecoderKind|
        (#[trigger] kind_decode(k, raw)) matches Some(m) ==> m.dom().finite() && m.len() > 0 by {
        match kind_decode(k, raw) {
            Some(m) => {
                lemma_decoded_maps_finite(k, raw);
            },
            None => {},
        }
    }
}

/// Decoded maps are finite (they are built by finitely many inserts).
pub proof fn lemma_decoded_maps_finite(k: DecoderKind, raw: Seq<char>)
    ensures
        kind_decode(k, raw) matches Some(m) ==> m.dom().finite() && m.len() > 0,
{
    match k {
        DecoderKind::SwiftStructured => {
            let segs = crate::text::split(raw, '/');
            swift_structured::lemma_swift_fields_finite(segs, 1);
        },
        DecoderKind::GermanGvc => {
            let parts = crate::text::split(raw, '?');
            german_gvc::lemma_gvc_fields_finite(parts, parts.len() as int);
        },
        DecoderKind::Angular => {
            match angular::angular_delimiter(raw) {
                Some(d) => {
                    let parts = crate::text::split(raw, d);
                    angular::lemma_angular_fields_finite(parts, parts.len() as int);
                },
                None => {},
            }
        },
        DecoderKind::Unstructured => {
            let m = unstructured::unstructured_decode(raw);
            assert(m.dom() =~= Set::<Seq<char>>::empty().insert("detail"@));
        },
    }
}

/// The auto-detect chain tries the SWIFT decoder first: text it recognizes
/// decodes to exactly its fields.
pub proof fn law_auto_chain_prefers_swift(raw: Seq<char>)
    ensures
        swift_structured::swift_decode(raw) matches Some(m) ==> chain_decode(auto_kinds(), raw)
            == m,
{
}

/// With an explicit resolver, text the chosen decoder does not recognize
/// falls through to `{"detail": raw}`: no error and no data loss.
pub proof fn law_resolver_falls_back(k: DecoderKind, raw: Seq<char>)
    ensures
        chain_decode(seq![k, DecoderKind::Unstructured], raw) == match kind_decode(k, raw) {
            Some(m) => m,
            None => unstructured::unstructured_decode(raw),
        },
{
    let ks = seq![k, DecoderKind::Unstructured];
    assert(ks.drop_first() =~= seq![DecoderKind::Unstructured]);
    assert(ks.drop_first().drop_first() =~= Seq::<DecoderKind>::empty());
    reveal_with_fuel(chain_decode, 3);
}

// ---------------------------------------------------------------------------
// Convenience resolution over structured details
// ---------------------------------------------------------------------------

/// Counterparty name: GVC `32` (with `33` after a space), else Angular `27`,
/// else SWIFT `NAME`, else empty.
pub open spec fn resolved_counterparty(m: Map<Seq<char>, Seq<char>>) -> Seq<char> {
    if m.contains_key("32"@) {
        if m.contains_key("33"@) {
            m["32"@] + seq![' '] + m["33"@]
        } else {
            m["32"@]
        }
    } else if m.contains_key("27"@) {
        m["27"@]
    } else if m.contains_key("NAME"@) {
        m["NAME"@]
    } else {
        Seq::empty()
    }
}

pub open spec fn or_empty(o: Option<Seq<char>>) -> Seq<char> {
    match o {
        Some(s) => s,
        None => Seq::empty(),
    }
}

fn clone_string(s: &String) -> (r: String)
    ensures
        r@ == s@,
{
    s.clone()
}

/// Compute the counterparty name from structured details.
pub fn resolve_counterparty(sd: &FieldMap) -> (r: String)
    ensures
        r@ == resolved_counterparty(sd@),
{
    if let Some(name) = sd.get("32") {
        if let Some(cont) = sd.get("33") {
            let mut s = clone_string(name);
            s.push(' ');
            push_str(&mut s, cont.as_str());
            return s;
        }
        return clone_string(name);
    }
    if let Some(name) = sd.get("27") {
        return clone_string(name);
    }
    match sd.get("NAME") {
        Some(n) => clone_string(n),
        None => String::new(),
    }
}

/// Compute the counterparty IBAN from structured details: GVC `31`, else
/// Angular `30`, else SWIFT `IBAN`, else empty.
pub fn resolve_counter_iban(sd: &FieldMap) -> (r: String)
    ensures
        r@ == or_empty(details_counter_iban(sd@)),
{
    match counter_iban_of(sd) {
        Some(s) => s,
        None => String::new(),
    }
}

/// Compute the purpose/remittance text from structured details: GVC `20`
/// through `29` joined with spaces, else SWIFT `REMI`, else SWIFT `EREF`,
/// else empty.
pub fn resolve_purpose(sd: &FieldMap) -> (r: String)
    ensures
        r@ == or_empty(details_purpose(sd@)),
{
    match purpose_of(sd) {
        Some(s) => s,
        None => String::new(),
    }
}

} // verus!
