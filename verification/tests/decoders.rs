//! Each Tag 86 dialect decoder on its own.

use x940rs::decoders::angular::AngularDecoder;
use x940rs::decoders::german_gvc::GermanGvcDecoder;
use x940rs::decoders::swift_structured::SwiftStructuredDecoder;
use x940rs::decoders::unstructured::UnstructuredDecoder;
use x940rs::decoders::{resolve_counter_iban, resolve_counterparty, resolve_purpose, Tag86Decoder};
use x940rs::FieldMap;

#[test]
fn decodes_polish_angular_format() {
    let decoder = AngularDecoder;
    let raw = "010<00PRZELEW PRZYCHODZACY<20FAKTURA 1234/2026<27JOHN DOE SERVICES<30PL22103004";

    let result = decoder.decode(raw);
    assert!(result.is_some());

    let fields = result.unwrap();
    assert_eq!(fields.get("tx_code").unwrap(), "010");
    assert_eq!(fields.get("00").unwrap(), "PRZELEW PRZYCHODZACY");
    assert_eq!(fields.get("20").unwrap(), "FAKTURA 1234/2026");
    assert_eq!(fields.get("27").unwrap(), "JOHN DOE SERVICES");
    assert_eq!(fields.get("30").unwrap(), "PL22103004");
}

#[test]
fn decodes_nordic_caret_format() {
    let decoder = AngularDecoder;
    let raw = "099^00INSATTNING^20INVOICE 555^27NORDIC TRADING AB";

    let result = decoder.decode(raw);
    assert!(result.is_some());

    let fields = result.unwrap();
    assert_eq!(fields.get("tx_code").unwrap(), "099");
    assert_eq!(fields.get("00").unwrap(), "INSATTNING");
    assert_eq!(fields.get("27").unwrap(), "NORDIC TRADING AB");
}

#[test]
fn rejects_straight_text() {
    let decoder = AngularDecoder;
    let result = decoder.decode("WIRE TRANSFER OUT TO JOHN DOE");
    assert!(result.is_none());
}

#[test]
fn rejects_swift_format() {
    let decoder = AngularDecoder;
    let result = decoder.decode("/EREF/INV-001/NAME/CORP");
    assert!(result.is_none());
}

#[test]
fn decodes_standard_gvc_format() {
    let decoder = GermanGvcDecoder;
    let raw = "166?00REMITTANCE?20INV-9924?21KREATOR ABSCHNITT 1?32ACME CORP GMBH";

    let result = decoder.decode(raw);
    assert!(result.is_some());

    let fields = result.unwrap();
    assert_eq!(fields.get("gvc").unwrap(), "166");
    assert_eq!(fields.get("00").unwrap(), "REMITTANCE");
    assert_eq!(fields.get("20").unwrap(), "INV-9924");
    assert_eq!(fields.get("21").unwrap(), "KREATOR ABSCHNITT 1");
    assert_eq!(fields.get("32").unwrap(), "ACME CORP GMBH");
    assert_eq!(fields.get("REMI_COMBINED").unwrap(), "INV-9924 KREATOR ABSCHNITT 1");
}

#[test]
fn rejects_non_gvc_input() {
    let decoder = GermanGvcDecoder;
    let result = decoder.decode("/EREF/INV-001/NAME/SWIFT CORP");
    assert!(result.is_none());
}

#[test]
fn rejects_angular_format() {
    let decoder = GermanGvcDecoder;
    let result = decoder.decode("010<00PRZELEW<20FAKTURA 1234<27JOHN DOE");
    assert!(result.is_none());
}

#[test]
fn decodes_standard_swift_format() {
    let decoder = SwiftStructuredDecoder;
    let raw = "/EREF/INV-2026-991/REMI/MONTHLY RETAINER/NAME/ALPHA CORP";

    let result = decoder.decode(raw);
    assert!(result.is_some());

    let fields = result.unwrap();
    assert_eq!(fields.get("EREF").unwrap(), "INV-2026-991");
    assert_eq!(fields.get("REMI").unwrap(), "MONTHLY RETAINER");
    assert_eq!(fields.get("NAME").unwrap(), "ALPHA CORP");
}

#[test]
fn rejects_non_swift_input() {
    let decoder = SwiftStructuredDecoder;
    let result = decoder.decode("UNKNOWN REGIONAL FORMAT CODE");
    assert!(result.is_none());
}

#[test]
fn rejects_german_gvc_format() {
    let decoder = SwiftStructuredDecoder;
    let result = decoder.decode("166?00REMITTANCE?20INV-9924?32ACME CORP");
    assert!(result.is_none());
}

#[test]
fn always_matches() {
    let decoder = UnstructuredDecoder;
    let result = decoder.decode("ANY RANDOM TEXT HERE");
    assert!(result.is_some());
    let fields = result.unwrap();
    assert_eq!(fields.get("detail").unwrap(), "ANY RANDOM TEXT HERE");
}

#[test]
fn handles_multi_line_text() {
    let decoder = UnstructuredDecoder;
    let raw = "LINE ONE\nLINE TWO\nLINE THREE";
    let result = decoder.decode(raw);
    assert!(result.is_some());
    let fields = result.unwrap();
    assert_eq!(fields.len(), 1);
}

#[test]
fn decoder_names() {
    assert_eq!(SwiftStructuredDecoder.name(), "swift-structured");
    assert_eq!(GermanGvcDecoder.name(), "german-gvc");
    assert_eq!(AngularDecoder.name(), "angular");
    assert_eq!(UnstructuredDecoder.name(), "unstructured");
}

fn fields(pairs: &[(&str, &str)]) -> FieldMap {
    let mut m = FieldMap::new();
    for (k, v) in pairs {
        m.insert(k.to_string(), v.to_string());
    }
    m
}

#[test]
fn resolves_counterparty_in_priority_order() {
    assert_eq!(resolve_counterparty(&fields(&[("32", "ACME"), ("33", "GMBH"), ("NAME", "X")])), "ACME GMBH");
    assert_eq!(resolve_counterparty(&fields(&[("32", "ACME"), ("27", "Y")])), "ACME");
    assert_eq!(resolve_counterparty(&fields(&[("27", "JOHN"), ("NAME", "X")])), "JOHN");
    assert_eq!(resolve_counterparty(&fields(&[("NAME", "X")])), "X");
    assert_eq!(resolve_counterparty(&fields(&[("detail", "free text")])), "");
}

#[test]
fn resolves_counter_iban_and_purpose() {
    assert_eq!(resolve_counter_iban(&fields(&[("31", "A"), ("30", "B"), ("IBAN", "C")])), "A");
    assert_eq!(resolve_counter_iban(&fields(&[("30", "B"), ("IBAN", "C")])), "B");
    assert_eq!(resolve_counter_iban(&fields(&[("IBAN", "C")])), "C");
    assert_eq!(resolve_counter_iban(&fields(&[])), "");
    assert_eq!(resolve_purpose(&fields(&[("22", "C"), ("20", "A"), ("21", "B"), ("REMI", "R")])), "A B C");
    assert_eq!(resolve_purpose(&fields(&[("REMI", "R"), ("EREF", "E")])), "R");
    assert_eq!(resolve_purpose(&fields(&[("EREF", "E")])), "E");
    assert_eq!(resolve_purpose(&fields(&[])), "");
}

#[test]
fn field_map_insert_replaces() {
    let mut m = fields(&[("A", "1"), ("B", "2")]);
    m.insert("A".to_string(), "3".to_string());
    assert_eq!(m.len(), 2);
    assert_eq!(m.get("A").unwrap(), "3");
    assert!(m.contains_key("B"));
    assert!(!m.contains_key("C"));
    assert!(!m.is_empty());
    assert!(FieldMap::new().is_empty());
}

#[test]
fn angular_detection_tests_every_delimiter() {
    let fields = AngularDecoder.decode("010<<20FAKTURA").unwrap();
    assert_eq!(fields.len(), 2);
    assert_eq!(fields.get("tx_code").unwrap(), "010");
    assert_eq!(fields.get("20").unwrap(), "FAKTURA");
    assert!(AngularDecoder.decode("010<A<BC").is_none());
}

#[test]
fn swift_pairs_do_not_overlap() {
    let fields = SwiftStructuredDecoder.decode("/NAME/ACME/EREF/X").unwrap();
    assert_eq!(fields.len(), 2);
    assert_eq!(fields.get("NAME").unwrap(), "ACME");
    assert_eq!(fields.get("EREF").unwrap(), "X");
    assert!(!fields.contains_key("ACME"));
    // a keyword needs a non-empty value
    let fields = SwiftStructuredDecoder.decode("/EREF//NAME/X").unwrap();
    assert_eq!(fields.len(), 1);
    assert_eq!(fields.get("NAME").unwrap(), "X");
    let fields = SwiftStructuredDecoder.decode("/EREF/  /NAME/X").unwrap();
    assert_eq!(fields.get("EREF").unwrap(), "");
    assert!(SwiftStructuredDecoder.decode("/EREF/").is_none());
}

#[test]
fn dialect_decoders_take_any_text() {
    let fields = AngularDecoder.decode("010<20X<€").unwrap();
    assert_eq!(fields.get("20").unwrap(), "X");
    assert_eq!(fields.len(), 2);
    let fields = AngularDecoder.decode("010<20X<€5Y").unwrap();
    assert_eq!(fields.len(), 2);
    let fields = GermanGvcDecoder.decode("166?20X?€").unwrap();
    assert_eq!(fields.get("gvc").unwrap(), "166");
    assert_eq!(fields.get("20").unwrap(), "X");
    assert_eq!(fields.get("REMI_COMBINED").unwrap(), "X");
    assert_eq!(fields.len(), 3);
    assert!(GermanGvcDecoder.decode("166?é1?ü").is_none());
}
