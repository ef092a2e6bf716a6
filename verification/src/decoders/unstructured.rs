//! UnstructuredDecoder: the always-matching fallback.
use vstd::prelude::*;
use crate::models::{single_map, FieldMap};
use crate::text::string_from;
use super::Tag86Decoder;

verus! {

/// What the unstructured decoder gives for `raw`: `{"detail": raw}`.
pub open spec fn unstructured_decode(raw: Seq<char>) -> Map<Seq<char>, Seq<char>> {
    single_map("detail"@, raw)
}

/// Captures raw free-text Tag 86 content as a single "detail" key.
///
/// This decoder is always the last in every decoder chain. It never returns
/// None: when no structured dialect decoder matches, this decoder preserves
/// the raw text so no data is ever lost.
///
/// ```text
/// Input:  WIRE TRANSFER OUT TO JOHN DOE FOR MARCH INVOICE 44552
/// Output: {"detail": "WIRE TRANSFER OUT TO JOHN DOE FOR MARCH INVOICE 44552"}
/// ```
pub struct UnstructuredDecoder;

/// `{"detail": raw}` as a field map.
pub fn unstructured_fields(raw: &str) -> (m: FieldMap)
    ensures
        m@ == unstructured_decode(raw@),
{
    let mut fields = FieldMap::new();
    fields.insert(string_from("detail"), string_from(raw));
    fields
}

impl Tag86Decoder for UnstructuredDecoder {
    open spec fn decode_spec(&self, raw: Seq<char>) -> Option<Map<Seq<char>, Seq<char>>> {
        Some(unstructured_decode(raw))
    }

    fn name(&self) -> (n: &'static str)
        ensures
            n@ == "unstructured"@,
    {
        "unstructured"
    }

    fn decode(&self, raw: &str) -> (r: Option<FieldMap>) {
        Some(unstructured_fields(raw))
    }
}

} // verus!
