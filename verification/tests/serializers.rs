//! CSV, JSON document and camt.053 export.

use x940rs::parser::fields::parse_statement_number;
use x940rs::serializers::camt053::camt053_document;
use x940rs::serializers::{csv_escape, date_iso, decimal_string, int_string};
use x940rs::{json_document, parse_mt940, to_camt053, to_csv, Date, DecoderChain, Statement};

const FULL: &str = ":20:REF1\r\n:21:REL\r\n:25:DE123\r\n:28C:7/2\r\n:60F:C250101EUR1000,00\r\n\
:61:2501020102D250,5NTRFCUST1//BANK1\r\n:86:/EREF/E1/NAME/ACME CORP/REMI/INVOICE\r\n\
:61:250103RC10,NMSCNONREF\r\n:86:THE FIRST LINE\r\nAND THE SECOND\r\n\
:62F:C250103EUR759,50\r\n:64:C250103EUR759,50\r\n:65:C250104EUR700,00\r\n:86:OWNER INFO\r\n";

fn statements() -> Vec<Statement> {
    parse_mt940(FULL, &DecoderChain::auto()).unwrap()
}

#[test]
fn csv_escape_quotes_and_guards_formulas() {
    assert_eq!(csv_escape("plain"), "plain");
    assert_eq!(csv_escape("a,b"), "\"a,b\"");
    assert_eq!(csv_escape("say \"hi\""), "\"say \"\"hi\"\"\"");
    assert_eq!(csv_escape("two\nlines"), "\"two\nlines\"");
    assert_eq!(csv_escape("=SUM(A1)"), "\t=SUM(A1)");
    assert_eq!(csv_escape("-5"), "\t-5");
    assert_eq!(csv_escape("@x,y"), "\t\"@x,y\"");
    assert_eq!(csv_escape(""), "");
}

#[test]
fn csv_has_bom_header_and_one_line_per_transaction() {
    let csv = to_csv(&statements()).unwrap();
    let expected = "\u{FEFF}Statement,Account,Currency,Date,EntryDate,Type,Reference,BankRef,Counterparty,CounterIBAN,Purpose,Amount,IsReversal\n\
7,DE123,EUR,2025-01-02,2025-01-02,NTRF,CUST1,BANK1,ACME CORP,,INVOICE,-250.50,N\n\
7,DE123,EUR,2025-01-03,2025-01-03,NMSC,NONREF,,,,THE FIRST LINEAND THE SECOND,-10.00,Y\n";
    assert_eq!(csv, expected);
}

#[test]
fn csv_of_no_statements_is_the_header() {
    let csv = to_csv(&[]).unwrap();
    assert!(csv.starts_with('\u{FEFF}'));
    assert_eq!(csv.lines().count(), 1);
}

#[test]
fn json_document_fields() {
    let doc = json_document(&statements());
    assert_eq!(doc.len(), 1);
    let s = &doc[0];
    assert_eq!(s.transaction_reference, "REF1");
    assert_eq!(s.related_reference, "REL");
    assert_eq!(s.number.statement, "7");
    assert_eq!(s.number.sequence.as_deref(), Some("2"));
    assert_eq!(s.number.section, "");
    assert_eq!(s.statement_date, "2025-01-03");
    assert_eq!(s.opening_balance_date, "2025-01-01");
    assert_eq!(s.closing_available_balance_date, "2025-01-03T00:00:00.000Z");
    assert_eq!(s.forward_available_balance_date, "2025-01-04T00:00:00.000Z");
    assert_eq!(s.forward_available_balance.to_string(), "700.00");
    assert_eq!(s.information_to_account_owner, "OWNER INFO");
    assert_eq!(s.transactions.len(), 2);
    let t = &s.transactions[0];
    assert_eq!(t.date, "2025-01-02");
    assert_eq!(t.entry_date.as_deref(), Some("2025-01-02"));
    assert_eq!(t.amount.to_string(), "-250.50");
    assert!(!t.is_reversal);
    assert_eq!(t.bank_reference, "BANK1");
    assert_eq!(t.currency, "EUR");
    assert_eq!(t.structured_details.as_ref().unwrap().get("EREF").unwrap(), "E1");
    let t1 = &s.transactions[1];
    assert!(t1.is_reversal);
    assert_eq!(t1.amount.to_string(), "-10.00");
    assert!(t1.entry_date.is_none());
}

#[test]
fn json_available_balances_default_to_closing() {
    let raw = ":20:A\r\n:25:X\r\n:28C:1\r\n:60F:C250101EUR1,00\r\n:62F:C250131EUR5,25\r\n";
    let doc = json_document(&parse_mt940(raw, &DecoderChain::auto()).unwrap());
    assert_eq!(doc[0].closing_available_balance.to_string(), "5.25");
    assert_eq!(doc[0].forward_available_balance_date, "2025-01-31T00:00:00.000Z");
    assert_eq!(doc[0].related_reference, "");
}

#[test]
fn camt053_document_structure() {
    let xml = camt053_document(&statements(), "2025-01-05T10:00:00Z", 1700000000000).unwrap();
    assert!(xml.starts_with("<?xml version=\"1.0\" encoding=\"UTF-8\"?>"));
    for part in [
        "<Document xmlns=\"urn:iso:std:iso:20022:tech:xsd:camt.053.001.06\">",
        "<MsgId>MT940-REF1-1700000000000</MsgId>",
        "<CreDtTm>2025-01-05T10:00:00Z</CreDtTm>",
        "<IBAN>DE123</IBAN>",
        "<Cd>OPBD</Cd>",
        "<Cd>CLBD</Cd>",
        "<Amt Ccy=\"EUR\">1000.00</Amt>",
        "<NtryRef>TXN-1</NtryRef>",
        "<NtryRef>TXN-2</NtryRef>",
        "<Amt Ccy=\"EUR\">250.50</Amt>",
        "<CdtDbtInd>DBIT</CdtDbtInd>",
        "<RvslInd>true</RvslInd>",
        "<Nm>ACME CORP</Nm>",
        "<Ustrd>INVOICE</Ustrd>",
        "<Ustrd>THE FIRST LINEAND THE SECOND</Ustrd>",
        "</Document>",
    ] {
        assert!(xml.contains(part), "missing {}", part);
    }
    assert!(xml.contains("<Cdtr>"));
    assert!(!xml.contains("<Dbtr>"));
}

#[test]
fn camt053_escapes_text() {
    let raw = ":20:A&B\r\n:25:X<1>\r\n:28C:1\r\n:60F:C250101EUR1,00\r\n:62F:C250101EUR1,00\r\n";
    let stmts = parse_mt940(raw, &DecoderChain::auto()).unwrap();
    let xml = camt053_document(&stmts, "T", -5).unwrap();
    assert!(xml.contains("<Id>A&amp;B</Id>"));
    assert!(xml.contains("<IBAN>X&lt;1&gt;</IBAN>"));
    assert!(xml.contains("<MsgId>MT940-A&amp;B--5</MsgId>"));
}

#[test]
fn camt053_without_statements_uses_export_id() {
    let xml = camt053_document(&[], "T", 7).unwrap();
    assert!(xml.contains("<MsgId>MT940-export-7</MsgId>"));
    assert!(!xml.contains("<Stmt>"));
}

#[test]
fn to_camt053_stamps_the_current_time() {
    let xml = to_camt053(&statements()).unwrap();
    assert!(xml.contains("camt.053"));
    assert!(xml.contains("<CdtDbtInd>"));
    assert!(xml.contains("<MsgId>MT940-REF1-"));
    let created = xml.split("<CreDtTm>").nth(1).unwrap();
    assert_eq!(created.find("</CreDtTm>"), Some(20));
}

#[test]
fn number_and_date_text() {
    assert_eq!(decimal_string(0), "0");
    assert_eq!(decimal_string(1234567890), "1234567890");
    assert_eq!(int_string(-42), "-42");
    assert_eq!(int_string(i64::MIN), "-9223372036854775808");
    let d = Date::from_ymd_opt(7, 3, 9).unwrap();
    assert_eq!(date_iso(&d), "0007-03-09T00:00:00.000Z");
    assert_eq!(parse_statement_number("5/1/2").sequence.as_deref(), Some("1/2"));
}

const SWIFT_PAYLOAD: &str = ":20:SWIFTSTRUCT2026\r\n:25:EUR8934567890123456\r\n:28C:00042/001\r\n\
:60F:C260301EUR50000,00\r\n\
:61:2603020302D1250,00NTRFINV-2026-991//BNK-1\r\n\
:86:/EREF/INV-2026-991/NAME/ALPHA DIGITAL CORP/REMI/INVOICE 991\r\n\
:61:2603030303C3000,75NTRFTXN-882910//BNK-2\r\n\
:86:/EREF/TXN-882910/NAME/BETA SUPPLIES LTD\r\n\
:61:2603040304D250,00NMSCNONREF\r\n\
:86:/REMI/ACCOUNT MAINTENANCE FEE\r\n\
:62F:C260304EUR51500,75\r\n";

#[test]
fn golden_swift_structured_parses_three_transactions() {
    let statements = parse_mt940(SWIFT_PAYLOAD, &DecoderChain::auto()).unwrap();
    let doc = json_document(&statements);
    let stmt = &doc[0];

    assert_eq!(stmt.transaction_reference, "SWIFTSTRUCT2026");
    assert_eq!(stmt.account_identification, "EUR8934567890123456");
    assert_eq!(stmt.currency, "EUR");

    let txns = &stmt.transactions;
    assert_eq!(txns.len(), 3);

    let tx1 = &txns[0];
    assert_eq!(tx1.transaction_type, "NTRF");
    assert!(tx1.amount.is_sign_negative());
    let sd1 = tx1.structured_details.as_ref().expect("should have structuredDetails");
    assert_eq!(sd1.get("EREF").unwrap(), "INV-2026-991");
    assert_eq!(sd1.get("NAME").unwrap(), "ALPHA DIGITAL CORP");

    let tx2 = &txns[1];
    assert_eq!(tx2.transaction_type, "NTRF");
    assert!(!tx2.amount.is_sign_negative() && tx2.amount.to_string() != "0.00");
    let sd2 = tx2.structured_details.as_ref().expect("should have structuredDetails");
    assert_eq!(sd2.get("EREF").unwrap(), "TXN-882910");

    let tx3 = &txns[2];
    assert_eq!(tx3.transaction_type, "NMSC");
}

#[test]
fn golden_swift_structured_balance_amounts_correct() {
    let statements = parse_mt940(SWIFT_PAYLOAD, &DecoderChain::auto()).unwrap();
    let stmt = &statements[0];

    assert_eq!(stmt.opening_balance.amount.to_string(), "50000.00");
    assert_eq!(stmt.closing_balance.amount.to_string(), "51500.75");
    assert_eq!(stmt.opening_balance.currency, "EUR");
}

#[test]
fn json_structured_details_always_present() {
    let raw = ":20:A\r\n:25:X\r\n:28C:1\r\n:60F:C250101EUR1,00\r\n\
:61:250101C2,00NTRFREF1\r\n:62F:C250101EUR3,00\r\n";
    let statements = parse_mt940(raw, &DecoderChain::auto()).unwrap();
    assert!(statements[0].transactions[0].structured_details.is_none());
    let doc = json_document(&statements);
    let sd = doc[0].transactions[0].structured_details.as_ref().unwrap();
    assert_eq!(sd.len(), 1);
    assert_eq!(sd.get("detail").unwrap(), "");
}

#[test]
fn camt053_entry_details_always_hold_remittance() {
    let raw = ":20:A\r\n:25:X\r\n:28C:1\r\n:60F:C250101EUR1,00\r\n\
:61:250101C2,00NTRFREF1\r\n:62F:C250101EUR3,00\r\n";
    let statements = parse_mt940(raw, &DecoderChain::auto()).unwrap();
    let xml = camt053_document(&statements, "T", 1).unwrap();
    assert!(xml.contains("<NtryDtls>"));
    assert!(xml.contains("<RmtInf>"));
    assert!(xml.contains("<Ustrd></Ustrd>"));
    assert!(xml.contains("<NtryRef>TXN-1</NtryRef>"));
}
