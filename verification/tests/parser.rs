//! The tokenizer, the tag handlers of the FSM, and whole-input parsing.

use x940rs::parser::fields::{parse_balance_checked, parse_statement_number};
use x940rs::parser::tokenizer::tokenize_lines;
use x940rs::parser::transaction::parse_transaction;
use x940rs::parser::{
    handle_body_tag, handle_footer_tag, handle_header_tag, validate_statement, ParserState, State,
};
use x940rs::{
    parse_mt940, parse_mt940_checked, Balance, DebitOrCredit, DecoderChain, ParseError, Statement,
    StatementNumber,
};

#[test]
fn tokenizes_simple_mt940() {
    let input = ":20:TEST\r\n:25:ACCT\r\n:28C:1/1\r\n:60F:C240101EUR100,00\r\n:62F:C240101EUR100,00\r\n";
    let lines = tokenize_lines(input);
    assert!(lines.len() >= 5);
    assert_eq!(lines[0].tag, ":20:");
    assert_eq!(lines[1].tag, ":25:");
}

#[test]
fn parses_minimal_statement() {
    let raw = ":20:TEST\r\n:25:ACCT\r\n:28C:1/1\r\n:60F:C240101EUR100,00\r\n:62F:C240101EUR100,00\r\n";
    let chain = DecoderChain::auto();
    let stmts = parse_mt940(raw, &chain).unwrap();
    assert_eq!(stmts.len(), 1);
    let s = &stmts[0];
    assert_eq!(s.transaction_reference, "TEST");
    assert_eq!(s.account_identification, "ACCT");
}

#[test]
fn handle_header_tag_parses_opening_balance() {
    let mut ps = ParserState {
        current: Some(Statement::new("T".into())),
        ..ParserState::default()
    };
    handle_header_tag(":60F:", "C240101EUR1500,00", &mut ps).unwrap();
    let s = ps.current.as_ref().unwrap();
    assert!(s.has_opening_balance);
    assert_eq!(s.opening_balance.amount.to_string(), "1500.00");
    assert_eq!(ps.state, State::Body);
}

#[test]
fn handle_header_tag_parses_account_and_statement_number() {
    let mut ps = ParserState {
        current: Some(Statement::new("T".into())),
        ..ParserState::default()
    };
    handle_header_tag(":25:", "DE1234567890", &mut ps).unwrap();
    handle_header_tag(":28C:", "5/1", &mut ps).unwrap();
    let s = ps.current.as_ref().unwrap();
    assert_eq!(s.account_identification, "DE1234567890");
    assert_eq!(s.statement_number.statement, "5");
    assert_eq!(s.statement_number.sequence.as_deref(), Some("1"));
}

#[test]
fn handle_body_tag_parses_transaction() {
    let chain = DecoderChain::auto();
    let mut ps = ParserState {
        current: Some(Statement::new("T".into())),
        ..ParserState::default()
    };
    handle_body_tag(":61:", "2401012401D100,00NTRF//REF001", &chain, &mut ps).unwrap();
    let tx = ps.current_tx.as_ref().unwrap();
    assert_eq!(tx.amount.to_string(), "100.00");
    assert_eq!(tx.transaction_type, "NTRF");
    assert_eq!(tx.bank_reference.as_deref(), Some("REF001"));
}

#[test]
fn handle_body_tag_parses_closing_balance() {
    let chain = DecoderChain::auto();
    let mut ps = ParserState {
        current: Some(Statement::new("T".into())),
        ..ParserState::default()
    };
    handle_body_tag(":62F:", "C240101EUR900,00", &chain, &mut ps).unwrap();
    let s = ps.current.as_ref().unwrap();
    assert!(s.has_closing_balance);
    assert_eq!(s.closing_balance.amount.to_string(), "900.00");
    assert_eq!(ps.state, State::Footer);
}

#[test]
fn handle_footer_tag_parses_available_balances() {
    let mut ps = ParserState {
        current: Some(Statement::new("T".into())),
        ..ParserState::default()
    };
    handle_footer_tag(":64:", "C240101EUR800,00", &mut ps).unwrap();
    handle_footer_tag(":65:", "C240131EUR700,00", &mut ps).unwrap();
    let s = ps.current.as_ref().unwrap();
    assert_eq!(s.closing_available.as_ref().unwrap().amount.to_string(), "800.00");
    assert_eq!(s.forward_available.as_ref().unwrap().amount.to_string(), "700.00");
}

#[test]
fn validate_statement_rejects_missing_opening_balance() {
    let mut s = Statement::new("T".into());
    s.account_identification = "A".into();
    s.statement_number = StatementNumber {
        statement: "1".into(),
        sequence: None,
    };
    // has_opening_balance is false by default
    assert!(validate_statement(&s).is_err());
}

#[test]
fn validate_statement_accepts_zero_balance() {
    let mut s = Statement::new("T".into());
    s.account_identification = "A".into();
    s.statement_number = StatementNumber {
        statement: "1".into(),
        sequence: None,
    };
    s.set_opening_balance(Balance::default()); // zero amount, but tag was parsed
    s.set_closing_balance(Balance::default());
    // Should pass even though amounts are zero
    assert!(validate_statement(&s).is_ok());
}

#[test]
fn golden_empty_file_returns_error() {
    let result = parse_mt940("", &DecoderChain::auto());
    assert!(result.is_err());
}

#[test]
fn golden_missing_mandatory_tags_returns_error() {
    let raw = ":20:TEST\r\n:62F:C240101EUR100,00\r\n";
    let result = parse_mt940(raw, &DecoderChain::auto());
    assert!(result.is_err());
}

#[test]
fn golden_number_of_statement_handles_number_only() {
    // :28C: without sequence number
    let raw =
        ":20:TEST\r\n:25:ACCT\r\n:28C:00001\r\n:60F:C240101EUR100,00\r\n:62F:C240101EUR100,00\r\n";
    let statements = parse_mt940(raw, &DecoderChain::auto()).unwrap();
    let stmt = &statements[0];
    assert_eq!(stmt.statement_number.statement, "00001");
    assert!(stmt.statement_number.sequence.is_none());
}

const FULL: &str = ":20:REF1\r\n:21:REL\r\n:25:DE123\r\n:28C:7/2\r\n:60F:C250101EUR1000,00\r\n\
:61:2501020102D250,5NTRFCUST1//BANK1\r\n:86:/EREF/E1/NAME/ACME CORP/REMI/INVOICE\r\n\
:61:250103RC10,NMSCNONREF\r\n:86:THE FIRST LINE\r\nAND THE SECOND\r\n\
:62F:C250103EUR759,50\r\n:64:C250103EUR759,50\r\n:65:C250104EUR700,00\r\n:86:OWNER INFO\r\n";

#[test]
fn parses_full_statement() {
    let stmts = parse_mt940(FULL, &DecoderChain::auto()).unwrap();
    assert_eq!(stmts.len(), 1);
    let s = &stmts[0];
    assert_eq!(s.related_reference.as_deref(), Some("REL"));
    assert_eq!(s.statement_number.sequence.as_deref(), Some("2"));
    assert_eq!(s.currency(), "EUR");
    assert_eq!(s.transactions.len(), 2);
    let t0 = &s.transactions[0];
    assert_eq!(t0.debit_credit, DebitOrCredit::Debit);
    assert_eq!(t0.amount.to_string(), "250.50");
    assert_eq!(t0.signed_amount().to_string(), "-250.50");
    assert_eq!(t0.entry_date.unwrap().to_ymd_string(), "2025-01-02");
    assert_eq!(t0.customer_reference, "CUST1");
    assert_eq!(t0.bank_reference.as_deref(), Some("BANK1"));
    assert_eq!(t0.counterparty().as_deref(), Some("ACME CORP"));
    assert_eq!(t0.purpose().as_deref(), Some("INVOICE"));
    let t1 = &s.transactions[1];
    assert_eq!(t1.debit_credit, DebitOrCredit::ReversalCredit);
    assert!(t1.entry_date.is_none());
    assert_eq!(t1.amount.to_string(), "10.00");
    assert_eq!(t1.details, "THE FIRST LINEAND THE SECOND");
    assert_eq!(t1.structured_details.as_ref().unwrap().get("detail").unwrap(), "THE FIRST LINEAND THE SECOND");
    assert_eq!(s.closing_available.as_ref().unwrap().amount.to_string(), "759.50");
    assert_eq!(s.forward_available.as_ref().unwrap().date.to_ymd_string(), "2025-01-04");
    assert_eq!(s.info_to_owner.as_deref(), Some("OWNER INFO"));
}

#[test]
fn continuation_lines_of_61_become_supplementary_details() {
    let raw = ":20:R\r\n:25:A\r\n:28C:1\r\n:60F:C250101EUR1,00\r\n\
:61:250101C1,00NTRFREF\r\nSUPPLEMENTARY DETAILS\r\n  FROM THE BANK  \r\n:62F:C250101EUR2,00\r\n";
    let stmts = parse_mt940(raw, &DecoderChain::auto()).unwrap();
    let tx = &stmts[0].transactions[0];
    assert_eq!(tx.transaction_type, "NTRF");
    assert_eq!(tx.customer_reference, "REF");
    assert_eq!(tx.supplementary.as_deref(), Some("SUPPLEMENTARY DETAILS\n  FROM THE BANK"));
}

#[test]
fn tokenizer_joins_86_lines_without_space() {
    let lines = tokenize_lines(":86:/EREF/STRESS\n-881/REMI/THAT\nSHOULD\n:61:X\nY\r\n");
    assert_eq!(lines.len(), 2);
    assert_eq!(lines[0].value, "/EREF/STRESS-881/REMI/THATSHOULD");
    assert_eq!(lines[1].tag, ":61:");
    assert_eq!(lines[1].value, "X\nY");
}

#[test]
fn tokenizer_ignores_text_before_first_tag() {
    let lines = tokenize_lines("{1:F01}\r\nHEADER\r\n:20:A\r\n-}");
    assert_eq!(lines.len(), 1);
    assert_eq!(lines[0].tag, ":20:");
    assert_eq!(lines[0].value, "A-}");
}

#[test]
fn parses_two_statements() {
    let one = ":20:A\r\n:25:X\r\n:28C:1\r\n:60F:C250101EUR1,00\r\n:62F:C250101EUR1,00\r\n";
    let two = ":20:B\r\n:25:Y\r\n:28C:2\r\n:60M:D250102USD2,00\r\n:62M:D250102USD2,00\r\n";
    let stmts = parse_mt940(&format!("{}{}", one, two), &DecoderChain::auto()).unwrap();
    assert_eq!(stmts.len(), 2);
    assert_eq!(stmts[1].transaction_reference, "B");
    assert!(stmts[1].opening_balance.is_intermediate);
    assert_eq!(stmts[1].opening_balance.debit_credit, DebitOrCredit::Debit);
    assert_eq!(stmts[1].currency(), "USD");
}

#[test]
fn missing_tags_are_reported_in_order() {
    let chain = DecoderChain::auto();
    let cases = [
        (":20:T\r\n:28C:1\r\n:60F:C250101EUR1,00\r\n:62F:C250101EUR1,00\r\n", ":25:"),
        (":20:T\r\n:25:A\r\n:60F:C250101EUR1,00\r\n:62F:C250101EUR1,00\r\n", ":28C:"),
        (":20:T\r\n:25:A\r\n:28C:1\r\n", ":60F:"),
        (":20:T\r\n:25:A\r\n:28C:1\r\n:60F:C250101EUR1,00\r\n", ":62F:"),
    ];
    for (raw, missing) in cases {
        match parse_mt940(raw, &chain) {
            Err(ParseError::MissingTag { tag, context }) => {
                assert_eq!(tag, missing);
                assert_eq!(context, "T");
            }
            other => panic!("unexpected result {:?}", other),
        }
    }
    let mut s = Statement::new("T".into());
    s.account_identification = "A".into();
    s.statement_number = parse_statement_number("1");
    match validate_statement(&s) {
        Err(ParseError::MissingTag { tag, .. }) => assert_eq!(tag, ":60F:"),
        other => panic!("unexpected result {:?}", other),
    }
}

#[test]
fn input_without_statement_is_empty_input() {
    assert!(matches!(parse_mt940("no tags here", &DecoderChain::auto()), Err(ParseError::EmptyInput)));
    assert!(matches!(parse_mt940(":25:ACCT\r\n", &DecoderChain::auto()), Err(ParseError::EmptyInput)));
}

#[test]
fn bad_61_is_a_format_error() {
    let raw = ":20:T\r\n:25:A\r\n:28C:1\r\n:60F:C250101EUR1,00\r\n:61:2501X1,00NTRF\r\n:62F:C250101EUR1,00\r\n";
    match parse_mt940(raw, &DecoderChain::auto()) {
        Err(ParseError::InvalidFormat { tag, value, reason }) => {
            assert_eq!(tag, ":61:");
            assert_eq!(value, "2501X1,00NTRF");
            assert_eq!(reason, "does not match expected format");
        }
        other => panic!("unexpected result {:?}", other),
    }
}

#[test]
fn transaction_grammar_cases() {
    let t = parse_transaction("250101RD5,NCHGABC/X").err().unwrap();
    assert!(matches!(t, ParseError::InvalidFormat { .. }));
    let t = parse_transaction("250101CE5,NCHG").unwrap();
    assert_eq!(t.funds_code.as_deref(), Some("E"));
    assert_eq!(t.customer_reference, "");
    let t = parse_transaction("250101RDE5,NCHG").unwrap();
    assert_eq!(t.debit_credit, DebitOrCredit::ReversalDebit);
    assert!(t.funds_code.is_none());
    let t = parse_transaction("2512310105C1,23FMSC a b //BANK X").unwrap();
    assert_eq!(t.entry_date.unwrap().to_ymd_string(), "2026-01-05");
    assert_eq!(t.customer_reference, "a b");
    assert_eq!(t.bank_reference.as_deref(), Some("BANK X"));
    assert!(matches!(parse_transaction("251301C1,00NTRF"), Err(ParseError::InvalidDate { .. })));
    assert!(parse_transaction("250101C1234567890123456,00NTRF").is_err());
}

#[test]
fn balance_errors() {
    match parse_balance_checked("C2501EUR1", false) {
        Some(Err(ParseError::InvalidFormat { reason, .. })) => assert_eq!(reason, "too short"),
        other => panic!("unexpected result {:?}", other),
    }
    match parse_balance_checked("X250101EUR1,00", false) {
        Some(Err(ParseError::InvalidFormat { reason, .. })) => assert_eq!(reason, "invalid D/C mark"),
        other => panic!("unexpected result {:?}", other),
    }
    assert!(matches!(parse_balance_checked("C250101EURX,00", false), Some(Err(ParseError::InvalidAmount { .. }))));
    assert!(matches!(parse_balance_checked("C251301EUR1,00", false), Some(Err(ParseError::InvalidDate { .. }))));
    // a multi-byte char where a byte offset falls inside it
    assert!(parse_balance_checked("é250101EUR1,00", false).is_none());
    assert!(parse_balance_checked("C25010é1EUR1,00", false).is_none());
}

#[test]
fn checked_parse_reports_the_panic_case() {
    let raw = ":20:T\r\n:25:A\r\n:28C:1\r\n:60F:C25010é1EUR1,00\r\n:62F:C250101EUR1,00\r\n";
    assert!(parse_mt940_checked(raw, &DecoderChain::auto()).is_none());
    // a multi-byte char inside the date is an invalid date, not a panic
    let bad_date = ":20:T\r\n:25:A\r\n:28C:1\r\n:60F:C2é301EUR1,00\r\n:62F:C250101EUR1,00\r\n";
    assert!(matches!(
        parse_mt940_checked(bad_date, &DecoderChain::auto()),
        Some(Err(ParseError::InvalidDate { .. }))
    ));
    // :86: texts with multi-byte chars after a delimiter decode without a panic
    let text = ":20:T\r\n:25:A\r\n:28C:1\r\n:60F:C250101EUR1,00\r\n:61:250101C1,00NTRF\r\n\
:86:166?20X?€\r\n:62F:C250101EUR1,00\r\n";
    let stmts = parse_mt940_checked(text, &DecoderChain::auto()).unwrap().unwrap();
    let sd = stmts[0].transactions[0].structured_details.as_ref().unwrap();
    assert_eq!(sd.get("gvc").unwrap(), "166");
    assert_eq!(sd.get("20").unwrap(), "X");
    let ok = ":20:T\r\n:25:A\r\n:28C:1\r\n:60F:C250101EUR1,00\r\n:62F:C250101EUR1,00\r\n";
    assert!(matches!(parse_mt940_checked(ok, &DecoderChain::auto()), Some(Ok(_))));
}
