//! Concrete instances of the properties the library proves.

use x940rs::parser::fields::{parse_balance_checked, parse_statement_number};
use x940rs::parser::tokenizer::tokenize_lines;
use x940rs::parser::transaction::parse_transaction;
use x940rs::serializers::json::txn_to_json;
use x940rs::decoders::german_gvc::GermanGvcDecoder;
use x940rs::decoders::Tag86Decoder;
use x940rs::{parse_mt940, DebitOrCredit, DecoderChain, ParseError};

#[test]
fn every_parsed_transaction_amount_is_non_negative() {
    let raw = ":20:R\r\n:25:A\r\n:28C:1\r\n:60F:C250101EUR1,00\r\n\
:61:250101D0,00NTRF\r\n:61:250101RD7,1NTRF\r\n:61:250101C99,NTRF\r\n:62F:C250101EUR1,00\r\n";
    let stmts = parse_mt940(raw, &DecoderChain::auto()).unwrap();
    assert_eq!(stmts[0].transactions.len(), 3);
    for tx in &stmts[0].transactions {
        assert!(!tx.amount.is_sign_negative());
    }
}

#[test]
fn balance_amount_is_never_negative() {
    // the sign lives in the mark alone: a minus sign in the amount text is an invalid amount
    match parse_balance_checked("C250101EUR-5,00", false) {
        Some(Err(ParseError::InvalidAmount { value, .. })) => assert_eq!(value, "-5,00"),
        other => panic!("unexpected result {:?}", other),
    }
    let b = parse_balance_checked("D250101EUR5,00", false).unwrap().unwrap();
    assert!(!b.amount.is_sign_negative());
    assert_eq!(b.debit_credit, DebitOrCredit::Debit);
}

#[test]
fn statement_number_rejoins_at_the_first_slash() {
    for value in ["5/1", "00001", "1/2/3", "/9", ""] {
        let n = parse_statement_number(value);
        assert!(!n.statement.contains('/'));
        match n.sequence {
            Some(q) => assert_eq!(format!("{}/{}", n.statement, q), value),
            None => assert_eq!(n.statement, value),
        }
    }
}

#[test]
fn continuation_joins_without_space_except_61() {
    let lines = tokenize_lines(":86:AB\r\nCD\r\n:61:X\r\nY\r\n:20:Z\r\n");
    assert_eq!(lines[0].value, "ABCD");
    assert_eq!(lines[1].value, "X\nY");
    assert_eq!(format!("{}{}", lines[2].tag, lines[2].value), ":20:Z");
}

#[test]
fn json_amount_is_signed_by_direction() {
    let raw = ":20:R\r\n:25:A\r\n:28C:1\r\n:60F:C250101EUR1,00\r\n\
:61:250101D1,00NTRF\r\n:61:250101C2,00NTRF\r\n:61:250101RD3,00NTRF\r\n:61:250101RC4,00NTRF\r\n:62F:C250101EUR1,00\r\n";
    let stmts = parse_mt940(raw, &DecoderChain::auto()).unwrap();
    let amounts: Vec<String> = stmts[0]
        .transactions
        .iter()
        .map(|t| txn_to_json(t, "EUR").amount.to_string())
        .collect();
    assert_eq!(amounts, vec!["-1.00", "2.00", "3.00", "-4.00"]);
}

#[test]
fn parsed_statements_carry_their_mandatory_tags() {
    let raw = ":20:R\r\n:25:A\r\n:28C:1\r\n:60F:C250101EUR1,00\r\n:62F:C250101EUR1,00\r\n";
    let stmts = parse_mt940(raw, &DecoderChain::auto()).unwrap();
    assert!(!stmts.is_empty());
    for s in &stmts {
        assert!(!s.account_identification.is_empty());
        assert!(!s.statement_number.statement.is_empty());
        assert!(s.has_opening_balance && s.has_closing_balance);
    }
}

#[test]
fn resolver_falls_back_to_unstructured() {
    let chain = DecoderChain::with_resolver("swift").unwrap();
    let m = chain.decode("166?00REMITTANCE?20INV");
    assert_eq!(m.get("detail").unwrap(), "166?00REMITTANCE?20INV");
    assert_eq!(m.len(), 1);
}

#[test]
fn error_messages() {
    assert_eq!(ParseError::EmptyInput.to_string(), "Input contains no MT940 data");
    let e = ParseError::MissingTag { tag: ":25:", context: "REF".into() };
    assert_eq!(e.to_string(), "Missing mandatory tag :25: (REF)");
}

#[test]
fn parse_keeps_every_transaction() {
    for count in 1..10u32 {
        let mut input = String::from(":20:TEST\r\n:25:ACCT\r\n:28C:1/1\r\n:60F:C240101EUR1000,00\r\n");
        for i in 0..count {
            input.push_str(&format!(":61:2401012401D{:03},00NTRF//REF{:03}\r\n", i, i));
            input.push_str(&format!(":86:test transaction {}\r\n", i));
        }
        input.push_str(":62F:C240101EUR1000,00\r\n");
        let stmts = parse_mt940(&input, &DecoderChain::auto()).unwrap();
        let txns = &stmts[0].transactions;
        assert_eq!(txns.len() as u32, count);
        for (i, tx) in txns.iter().enumerate() {
            assert_eq!(tx.details, format!("test transaction {}", i));
            assert!(tx.structured_details.is_some());
            assert_eq!(tx.bank_reference.clone().unwrap(), format!("REF{:03}", i));
        }
    }
}

#[test]
fn bank_reference_is_the_text_after_double_slash() {
    let base = "2401012401C5,00NTRFCUSTREF";
    assert!(parse_transaction(base).unwrap().bank_reference.is_none());
    let with = format!("{}//BANK 1", base);
    let tx = parse_transaction(&with).unwrap();
    assert_eq!(tx.bank_reference.as_deref(), Some("BANK 1"));
    assert_eq!(tx.customer_reference, "CUSTREF");
    assert_eq!(tx.amount.to_string(), "5.00");
}

#[test]
fn statement_keeps_every_transaction_of_its_body() {
    let raw = ":20:R\r\n:25:A\r\n:28C:1\r\n:60F:C250101EUR1,00\r\n\
:61:250101C1,00NTRF\r\n:86:/EREF/A\r\n:61:250101D2,00NTRF\r\n:61:250101C3,00NMSC\r\n:86:166?20X\r\n\
:62F:C250101EUR3,00\r\n:64:C250101EUR3,00\r\n:86:INFO\r\n";
    let stmts = parse_mt940(raw, &DecoderChain::auto()).unwrap();
    assert_eq!(stmts.len(), 1);
    assert_eq!(stmts[0].transactions.len(), 3);
    assert_eq!(stmts[0].transactions[0].details, "/EREF/A");
    assert_eq!(stmts[0].transactions[1].details, "");
    assert_eq!(stmts[0].transactions[2].details, "166?20X");
}

#[test]
fn gvc_combines_remittance_exactly_when_a_2x_subfield_occurs() {
    let without = GermanGvcDecoder.decode("166?00X?32Y?31Z").unwrap();
    assert!(!without.contains_key("REMI_COMBINED"));
    assert_eq!(without.len(), 4);
    let with = GermanGvcDecoder.decode("166?00X?29LAST").unwrap();
    assert_eq!(with.get("REMI_COMBINED").unwrap(), "LAST");
    assert_eq!(with.len(), 4);
}
