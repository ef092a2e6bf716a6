# x940rs

A verified parser for SWIFT MT940 customer statements, with export to CSV,
a JSON document model and camt.053 XML, written in Verus.

- `src/text.rs`, `src/digits.rs`: text as sequences of chars, byte offsets,
  trimming, splitting, the Unicode decimal digits.
- `src/dates.rs`, `src/amounts.rs`: `YYMMDD` dates and comma-decimal amounts;
  calendar checks and date text come from `chrono`, decimal parsing and text
  from `rust_decimal`.
- `src/decoders/`: the `:86:` dialect decoders and the decoder chain.
- `src/parser/`: the tokenizer, the `:28C:`, balance and `:61:` field parsers,
  and the statement FSM with `parse_mt940`.
- `src/serializers/`: CSV text, the JSON document model, and camt.053 XML
  written through `quick_xml`.
- `app/`: the `x940` command line tool and the JSON text (serde).
- `tests/`: tests of the library.

Each parser function states its result exactly, including where the text
would be sliced inside a multi-byte char: `parse_mt940_checked` returns
`None` there, and `parse_mt940` requires that it does not happen.
