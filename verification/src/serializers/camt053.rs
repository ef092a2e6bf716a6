//! camt.053 (ISO 20022 bank-to-customer statement) XML export.
//!
//! The document is written as a sequence of XML events through
//! `quick_xml::Writer`; this module states exactly which events, in which
//! order, and leaves the rendering of events to bytes to `quick_xml`.
use vstd::prelude::*;
use vstd::utf8::{decode_utf8, valid_utf8};
use quick_xml::events::{BytesDecl, BytesEnd, BytesStart, BytesText, Event};
use quick_xml::Writer;
use crate::amounts::decimal_display;
use crate::dates::{decimal_text, ymd_text};
use crate::decoders::or_empty;
use crate::error::{ParseError, ParseErrorV};
use crate::models::{
    dc_is_debit, dc_is_reversal, tx_counter_iban, tx_counterparty, Balance, BalanceV,
    DebitOrCredit, Transaction, TransactionV,
};
use crate::parser::statements_v;
use crate::statement::{Statement, StatementV};
use crate::text::{is_ascii_digit, push_str, string_from};
use super::{booking_date_text, date_string, decimal_string, int_string, int_text, purpose_or_details};

verus! {

#[verifier::external_type_specification]
#[verifier::external_body]
#[verifier::reject_recursive_types(W)]
pub struct ExXmlWriter<W>(Writer<W>);

#[verifier::external_type_specification]
#[verifier::external_body]
pub struct ExIoError(std::io::Error);

#[verifier::external_type_specification]
#[verifier::external_body]
pub struct ExFromUtf8Error(std::string::FromUtf8Error);

/// An XML event as the writer receives it (text unescaped).
pub enum XmlEventV {
    Decl { version: Seq<char>, encoding: Seq<char> },
    Start { name: Seq<char>, attr: Option<(Seq<char>, Seq<char>)> },
    End { name: Seq<char> },
    Text { text: Seq<char> },
}

/// The events written to `w` so far, in order.
pub uninterp spec fn xml_events(w: Writer<Vec<u8>>) -> Seq<XmlEventV>;

/// The indentation `w` was made with: the char and the count per level.
pub uninterp spec fn xml_indent(w: Writer<Vec<u8>>) -> (u8, nat);

/// The bytes `quick_xml` writes for `events` with that indentation.
pub uninterp spec fn xml_document(events: Seq<XmlEventV>, indent_char: u8, indent_size: nat) -> Seq<
    u8,
>;

/// Calls `Writer::new_with_indent` on an empty buffer. Claimed: nothing is
/// written yet, and the writer keeps the indentation it was given.
#[verifier::external_body]
fn xml_writer_new(indent_char: u8, indent_size: usize) -> (w: Writer<Vec<u8>>)
    ensures
        xml_events(w) == Seq::<XmlEventV>::empty(),
        xml_indent(w) == (indent_char, indent_size as nat),
{
    Writer::new_with_indent(Vec::new(), indent_char, indent_size)
}

/// Calls `Writer::write_event` with an XML declaration (no `standalone`).
/// Claimed: the indentation is kept, the write succeeds (`write_event` fails
/// only when its sink does, and writing to a `Vec<u8>` does not fail), and
/// the declaration is written.
#[verifier::external_body]
fn xml_write_decl(w: &mut Writer<Vec<u8>>, version: &str, encoding: &str) -> (r: Result<
    (),
    std::io::Error,
>)
    ensures
        xml_indent(*final(w)) == xml_indent(*old(w)),
        r is Ok,
        xml_events(*final(w)) == xml_events(*old(w)).push(
            XmlEventV::Decl { version: version@, encoding: encoding@ },
        ),
{
    w.write_event(Event::Decl(BytesDecl::new(version, Some(encoding), None)))
}

/// Calls `Writer::write_event` with a start tag `name` without attributes.
/// Claimed as for `xml_write_decl`.
#[verifier::external_body]
fn xml_write_start(w: &mut Writer<Vec<u8>>, name: &str) -> (r: Result<(), std::io::Error>)
    ensures
        xml_indent(*final(w)) == xml_indent(*old(w)),
        r is Ok,
        xml_events(*final(w)) == xml_events(*old(w)).push(
            XmlEventV::Start { name: name@, attr: None },
        ),
{
    w.write_event(Event::Start(BytesStart::new(name)))
}

/// Calls `BytesStart::push_attribute` once and `Writer::write_event` with the
/// start tag. Claimed as for `xml_write_decl`.
#[verifier::external_body]
fn xml_write_start_attr(w: &mut Writer<Vec<u8>>, name: &str, key: &str, value: &str) -> (r:
    Result<(), std::io::Error>)
    ensures
        xml_indent(*final(w)) == xml_indent(*old(w)),
        r is Ok,
        xml_events(*final(w)) == xml_events(*old(w)).push(
            XmlEventV::Start { name: name@, attr: Some((key@, value@)) },
        ),
{
    let mut start = BytesStart::new(name);
    start.push_attribute((key, value));
    w.write_event(Event::Start(start))
}

/// Calls `Writer::write_event` with an end tag. Claimed as for `xml_write_decl`.
#[verifier::external_body]
fn xml_write_end(w: &mut Writer<Vec<u8>>, name: &str) -> (r: Result<(), std::io::Error>)
    ensures
        xml_indent(*final(w)) == xml_indent(*old(w)),
        r is Ok,
        xml_events(*final(w)) == xml_events(*old(w)).push(
            XmlEventV::End { name: name@ },
        ),
{
    w.write_event(Event::End(BytesEnd::new(name)))
}

/// Calls `Writer::write_event` with a text node (`BytesText::new`, which
/// escapes it when written). Claimed as for `xml_write_decl`.
#[verifier::external_body]
fn xml_write_text(w: &mut Writer<Vec<u8>>, text: &str) -> (r: Result<(), std::io::Error>)
    ensures
        xml_indent(*final(w)) == xml_indent(*old(w)),
        r is Ok,
        xml_events(*final(w)) == xml_events(*old(w)).push(
            XmlEventV::Text { text: text@ },
        ),
{
    w.write_event(Event::Text(BytesText::new(text)))
}

/// Calls `Writer::create_element(name).write_text_content(..)`, which writes
/// the start tag, the text and the end tag (as its source shows). Claimed as
/// for `xml_write_decl`, with those three events.
#[verifier::external_body]
fn xml_write_text_elem(w: &mut Writer<Vec<u8>>, name: &str, text: &str) -> (r: Result<
    (),
    std::io::Error,
>)
    ensures
        xml_indent(*final(w)) == xml_indent(*old(w)),
        r is Ok,
        xml_events(*final(w)) == xml_events(*old(w)) + text_elem_v(name@, text@),
{
    w.create_element(name).write_text_content(BytesText::new(text)).map(|_| ())
}

/// Calls `Writer::into_inner`. Claimed: the buffer holds what `quick_xml`
/// writes for the events written, with the writer's indentation; with an
/// ASCII indentation char that is valid UTF-8 (names, attributes and texts
/// come from `&str`, escaping keeps UTF-8, and the markup is ASCII).
#[verifier::external_body]
fn xml_into_bytes(w: Writer<Vec<u8>>) -> (b: Vec<u8>)
    ensures
        b@ == xml_document(xml_events(w), xml_indent(w).0, xml_indent(w).1),
        xml_indent(w).0 < 128 ==> valid_utf8(b@),
{
    w.into_inner()
}

/// Calls `String::from_utf8`. Claimed: it succeeds exactly on valid UTF-8,
/// and then holds the decoded chars.
#[verifier::external_body]
fn utf8_string(b: Vec<u8>) -> (r: Result<String, std::string::FromUtf8Error>)
    ensures
        r is Ok <==> valid_utf8(b@),
        r matches Ok(s) ==> s@ == decode_utf8(b@),
{
    String::from_utf8(b)
}

/// The message of an I/O error (its `Display`). Nothing is claimed of it.
#[verifier::external_body]
fn io_error_text(e: &std::io::Error) -> (s: String) {
    e.to_string()
}

/// The message of a UTF-8 decoding error (its `Display`). Nothing is claimed of it.
#[verifier::external_body]
fn utf8_error_text(e: &std::string::FromUtf8Error) -> (s: String) {
    e.to_string()
}

/// The shape of a UTC time stamp `YYYY-MM-DDTHH:MM:SSZ`: the year is at
/// least four ASCII digits, led by `+` past the year 9999, and the rest is
/// `-MM-DDTHH:MM:SSZ` with two ASCII digits in each field.
pub open spec fn utc_stamp_shape(s: Seq<char>) -> bool {
    let n = s.len() as int;
    let t = s.skip(n - 16);
    &&& n >= 20
    &&& t[0] == '-' && t[3] == '-' && t[6] == 'T' && t[9] == ':' && t[12] == ':' && t[15] == 'Z'
    &&& forall|i: int|
        0 <= i < 16 && i != 0 && i != 3 && i != 6 && i != 9 && i != 12 && i != 15
            ==> is_ascii_digit(#[trigger] t[i])
    &&& forall|i: int|
        0 <= i < n - 16 ==> is_ascii_digit(#[trigger] s[i]) || (i == 0 && s[i] == '+')
}

/// Calls `chrono::Utc::now()` and formats it with `fmt`, admitted only for
/// the ISO 8601 pattern the export uses (a pattern chrono cannot format makes
/// `to_string` panic). The time depends on the clock; what is claimed is the
/// shape that chrono's `%Y`, `%m`, `%d`, `%H`, `%M` and `%S` give every
/// time after the Unix epoch (before it, `Utc::now` panics).
#[verifier::external_body]
fn utc_now_formatted(fmt: &str) -> (s: String)
    requires
        fmt@ == "%Y-%m-%dT%H:%M:%SZ"@,
    ensures
        utc_stamp_shape(s@),
{
    chrono::Utc::now().format(fmt).to_string()
}

/// Calls `chrono::Utc::now().timestamp_millis()`. The result depends on the
/// clock: nothing is claimed of it.
#[verifier::external_body]
fn utc_now_millis() -> (ms: i64) {
    chrono::Utc::now().timestamp_millis()
}

// ---------------------------------------------------------------------------
// The events of a document
// ---------------------------------------------------------------------------

pub open spec fn start_v(name: Seq<char>) -> XmlEventV {
    XmlEventV::Start { name, attr: None }
}

pub open spec fn end_v(name: Seq<char>) -> XmlEventV {
    XmlEventV::End { name }
}

/// `<name>text</name>`.
pub open spec fn text_elem_v(name: Seq<char>, text: Seq<char>) -> Seq<XmlEventV> {
    seq![start_v(name), XmlEventV::Text { text }, end_v(name)]
}

/// `<Amt Ccy="ccy">text</Amt>`.
pub open spec fn amt_elem_v(ccy: Seq<char>, text: Seq<char>) -> Seq<XmlEventV> {
    seq![
        XmlEventV::Start { name: "Amt"@, attr: Some(("Ccy"@, ccy)) },
        XmlEventV::Text { text },
        end_v("Amt"@),
    ]
}

/// `DBIT` for debits, `CRDT` otherwise.
pub open spec fn dc_ind(debit: bool) -> Seq<char> {
    if debit {
        "DBIT"@
    } else {
        "CRDT"@
    }
}

/// A balance: its type code, amount with currency, debit/credit indicator and date.
pub open spec fn balance_events(code: Seq<char>, b: BalanceV) -> Seq<XmlEventV> {
    seq![start_v("Bal"@), start_v("Tp"@), start_v("CdOrPrtry"@)] + text_elem_v("Cd"@, code) + seq![
        end_v("CdOrPrtry"@),
        end_v("Tp"@),
    ] + amt_elem_v(b.currency, decimal_display(b.amount, Some(2))) + text_elem_v(
        "CdtDbtInd"@,
        dc_ind(dc_is_debit(b.debit_credit)),
    ) + seq![start_v("Dt"@)] + text_elem_v("Dt"@, ymd_text(b.date)) + seq![
        end_v("Dt"@),
        end_v("Bal"@),
    ]
}

/// The counterparty of a transaction, when it has a name: the creditor of a
/// debit or the debtor of a credit, with the account when there is one.
pub open spec fn parties_events(tx: TransactionV) -> Seq<XmlEventV> {
    let name = or_empty(tx_counterparty(tx));
    let iban = or_empty(tx_counter_iban(tx));
    let (party, acct) = if dc_is_debit(tx.debit_credit) {
        ("Cdtr"@, "CdtrAcct"@)
    } else {
        ("Dbtr"@, "DbtrAcct"@)
    };
    if name.len() == 0 {
        Seq::empty()
    } else {
        seq![start_v("RltdPties"@), start_v(party), start_v("Pty"@)] + text_elem_v("Nm"@, name)
            + seq![end_v("Pty"@), end_v(party)] + (if iban.len() == 0 {
            Seq::empty()
        } else {
            seq![start_v(acct), start_v("Id"@)] + text_elem_v("IBAN"@, iban) + seq![
                end_v("Id"@),
                end_v(acct),
            ]
        }) + seq![end_v("RltdPties"@)]
    }
}

/// The unstructured remittance information (always present, possibly empty).
pub open spec fn purpose_events(tx: TransactionV) -> Seq<XmlEventV> {
    seq![start_v("RmtInf"@)] + text_elem_v("Ustrd"@, purpose_or_details(tx)) + seq![
        end_v("RmtInf"@),
    ]
}

/// The reference, amount and indicators of entry `idx` (from 0).
pub open spec fn entry_amount_events(ccy: Seq<char>, tx: TransactionV, idx: nat) -> Seq<XmlEventV> {
    text_elem_v("NtryRef"@, "TXN-"@ + decimal_text(idx + 1)) + amt_elem_v(
        ccy,
        decimal_display(tx.amount, Some(2)),
    ) + text_elem_v("CdtDbtInd"@, dc_ind(dc_is_debit(tx.debit_credit))) + text_elem_v(
        "RvslInd"@,
        if dc_is_reversal(tx.debit_credit) {
            "true"@
        } else {
            "false"@
        },
    )
}

/// The booking and value dates and the bank transaction code of an entry.
pub open spec fn entry_dates_events(tx: TransactionV) -> Seq<XmlEventV> {
    seq![start_v("BookgDt"@)] + text_elem_v("Dt"@, booking_date_text(tx)) + seq![
        end_v("BookgDt"@),
        start_v("ValDt"@),
    ] + text_elem_v("Dt"@, ymd_text(tx.value_date)) + seq![
        end_v("ValDt"@),
        start_v("BkTxCd"@),
        start_v("Prtry"@),
    ] + text_elem_v("Cd"@, tx.transaction_type) + seq![end_v("Prtry"@), end_v("BkTxCd"@)]
}

/// The details of an entry: related party and remittance information.
pub open spec fn entry_details_events(tx: TransactionV) -> Seq<XmlEventV> {
    seq![start_v("NtryDtls"@), start_v("TxDtls"@)] + parties_events(tx) + purpose_events(tx) + seq![
        end_v("TxDtls"@),
        end_v("NtryDtls"@),
    ]
}

/// Entry `idx` (from 0) of a statement in currency `ccy`.
#[verifier::opaque]
pub open spec fn transaction_events(ccy: Seq<char>, tx: TransactionV, idx: nat) -> Seq<XmlEventV> {
    seq![start_v("Ntry"@)] + entry_amount_events(ccy, tx, idx) + entry_dates_events(tx)
        + entry_details_events(tx) + seq![end_v("Ntry"@)]
}

/// Each entry opens with its reference `TXN-<idx + 1>` and its amount with
/// two decimals in the statement currency, then carries `CdtDbtInd` `DBIT`
/// exactly for a debit (`D`) or a reversed credit (`RC`), `CRDT` for a
/// credit (`C`) or a reversed debit (`RD`), and `RvslInd` `true` exactly for
/// the reversals.
pub proof fn law_camt_entry_indicators(ccy: Seq<char>, tx: TransactionV, idx: nat)
    ensures
        ({
            let es = transaction_events(ccy, tx, idx);
            let d = tx.debit_credit;
            &&& es[0] == start_v("Ntry"@)
            &&& es.subrange(1, 4) == text_elem_v("NtryRef"@, "TXN-"@ + decimal_text(idx + 1))
            &&& es.subrange(4, 7) == amt_elem_v(ccy, decimal_display(tx.amount, Some(2)))
            &&& es.subrange(7, 10) == text_elem_v(
                "CdtDbtInd"@,
                if d == DebitOrCredit::Debit || d == DebitOrCredit::ReversalCredit {
                    "DBIT"@
                } else {
                    "CRDT"@
                },
            )
            &&& es.subrange(10, 13) == text_elem_v(
                "RvslInd"@,
                if d == DebitOrCredit::ReversalDebit || d == DebitOrCredit::ReversalCredit {
                    "true"@
                } else {
                    "false"@
                },
            )
        }),
{
    let es = transaction_events(ccy, tx, idx);
    let a = entry_amount_events(ccy, tx, idx);
    reveal(transaction_events);
    let head = seq![start_v("Ntry"@)] + a;
    let x1 = head + entry_dates_events(tx);
    let x2 = x1 + entry_details_events(tx);
    assert(a.len() == 12);
    assert(head.len() == 13);
    assert(es == x2 + seq![end_v("Ntry"@)]);
    assert(x1.subrange(0, 13) =~= head);
    assert(x2.subrange(0, 13) =~= head);
    assert(es.subrange(0, 13) =~= head);
    assert(es.subrange(1, 13) =~= a);
    assert(es.subrange(1, 4) =~= a.subrange(0, 3));
    assert(es.subrange(4, 7) =~= a.subrange(3, 6));
    assert(es.subrange(7, 10) =~= a.subrange(6, 9));
    assert(es.subrange(10, 13) =~= a.subrange(9, 12));
}

/// The entries of the first `n` transactions of `s`.
pub open spec fn entries_events(s: StatementV, n: int) -> Seq<XmlEventV>
    decreases n,
{
    if n <= 0 {
        Seq::empty()
    } else {
        entries_events(s, n - 1) + transaction_events(
            s.opening_balance.currency,
            s.transactions[n - 1],
            (n - 1) as nat,
        )
    }
}

/// A statement: its id, creation time, account and currency, opening and
/// closing balances, and its entries.
#[verifier::opaque]
pub open spec fn statement_events(s: StatementV, creation_time: Seq<char>) -> Seq<XmlEventV> {
    seq![start_v("Stmt"@)] + text_elem_v("Id"@, s.transaction_reference) + text_elem_v(
        "CreDtTm"@,
        creation_time,
    ) + seq![start_v("Acct"@), start_v("Id"@)] + text_elem_v("IBAN"@, s.account_identification)
        + seq![end_v("Id"@)] + text_elem_v("Ccy"@, s.opening_balance.currency) + seq![
        end_v("Acct"@),
    ] + balance_events("OPBD"@, s.opening_balance) + balance_events("CLBD"@, s.closing_balance)
        + entries_events(s, s.transactions.len() as int) + seq![end_v("Stmt"@)]
}

/// The statements of the first `n`.
pub open spec fn statements_events(ss: Seq<StatementV>, creation_time: Seq<char>, n: int) -> Seq<
    XmlEventV,
>
    decreases n,
{
    if n <= 0 {
        Seq::empty()
    } else {
        statements_events(ss, creation_time, n - 1) + statement_events(ss[n - 1], creation_time)
    }
}

/// The message id: `MT940-`, the first statement's reference (`export`
/// without statements), `-`, and the timestamp in milliseconds.
pub open spec fn message_id(ss: Seq<StatementV>, millis: int) -> Seq<char> {
    "MT940-"@ + (if ss.len() > 0 {
        ss[0].transaction_reference
    } else {
        "export"@
    }) + seq!['-'] + int_text(millis)
}

/// The whole camt.053 document: the declaration, the `Document` element in
/// the camt.053.001.06 namespace, the group header and the statements.
pub open spec fn camt053_events(ss: Seq<StatementV>, creation_time: Seq<char>, millis: int) -> Seq<
    XmlEventV,
> {
    seq![
        XmlEventV::Decl { version: "1.0"@, encoding: "UTF-8"@ },
        XmlEventV::Start {
            name: "Document"@,
            attr: Some(("xmlns"@, "urn:iso:std:iso:20022:tech:xsd:camt.053.001.06"@)),
        },
        start_v("BkToCstmrStmt"@),
        start_v("GrpHdr"@),
    ] + text_elem_v("MsgId"@, message_id(ss, millis)) + text_elem_v("CreDtTm"@, creation_time)
        + seq![end_v("GrpHdr"@)] + statements_events(ss, creation_time, ss.len() as int) + seq![
        end_v("BkToCstmrStmt"@),
        end_v("Document"@),
    ]
}

/// `small` stands as one contiguous run of events in `big`.
pub open spec fn holds_block(big: Seq<XmlEventV>, small: Seq<XmlEventV>) -> bool {
    exists|off: int|
        0 <= off && off + small.len() <= big.len() && #[trigger] big.subrange(
            off,
            off + small.len(),
        ) == small
}

proof fn lemma_block_extend(
    x: Seq<XmlEventV>,
    a: Seq<XmlEventV>,
    y: Seq<XmlEventV>,
    small: Seq<XmlEventV>,
)
    requires
        holds_block(a, small),
    ensures
        holds_block(x + a + y, small),
{
    let off = choose|off: int|
        0 <= off && off + small.len() <= a.len() && #[trigger] a.subrange(off, off + small.len())
            == small;
    let big = x + a + y;
    let o2 = x.len() + off;
    assert(big.subrange(o2, o2 + small.len()) =~= a.subrange(off, off + small.len()));
}

proof fn lemma_block_self(a: Seq<XmlEventV>)
    ensures
        holds_block(a, a),
{
    assert(a.subrange(0int, 0int + a.len()) =~= a);
}

proof fn lemma_block_trans(big: Seq<XmlEventV>, mid: Seq<XmlEventV>, small: Seq<XmlEventV>)
    requires
        holds_block(big, mid),
        holds_block(mid, small),
    ensures
        holds_block(big, small),
{
    let o1 = choose|off: int|
        0 <= off && off + mid.len() <= big.len() && #[trigger] big.subrange(off, off + mid.len())
            == mid;
    let o2 = choose|off: int|
        0 <= off && off + small.len() <= mid.len() && #[trigger] mid.subrange(
            off,
            off + small.len(),
        ) == small;
    assert(big.subrange(o1 + o2, o1 + o2 + small.len()) =~= mid.subrange(o2, o2 + small.len()));
}

proof fn lemma_entries_hold(s: StatementV, n: int, k: int)
    requires
        0 <= k < n <= s.transactions.len(),
    ensures
        holds_block(
            entries_events(s, n),
            transaction_events(s.opening_balance.currency, s.transactions[k], k as nat),
        ),
    decreases n,
{
    let te = transaction_events(s.opening_balance.currency, s.transactions[k], k as nat);
    let empty = Seq::<XmlEventV>::empty();
    if k == n - 1 {
        lemma_block_self(te);
        lemma_block_extend(entries_events(s, n - 1), te, empty, te);
        assert(entries_events(s, n - 1) + te + empty =~= entries_events(s, n));
    } else {
        lemma_entries_hold(s, n - 1, k);
        let last = transaction_events(
            s.opening_balance.currency,
            s.transactions[n - 1],
            (n - 1) as nat,
        );
        lemma_block_extend(empty, entries_events(s, n - 1), last, te);
        assert(empty + entries_events(s, n - 1) + last =~= entries_events(s, n));
    }
}

proof fn lemma_statement_holds_entries(s: StatementV, creation_time: Seq<char>)
    ensures
        holds_block(
            statement_events(s, creation_time),
            entries_events(s, s.transactions.len() as int),
        ),
{
    reveal(statement_events);
    let x = seq![start_v("Stmt"@)] + text_elem_v("Id"@, s.transaction_reference) + text_elem_v(
        "CreDtTm"@,
        creation_time,
    ) + seq![start_v("Acct"@), start_v("Id"@)] + text_elem_v("IBAN"@, s.account_identification)
        + seq![end_v("Id"@)] + text_elem_v("Ccy"@, s.opening_balance.currency) + seq![
        end_v("Acct"@),
    ] + balance_events("OPBD"@, s.opening_balance) + balance_events("CLBD"@, s.closing_balance);
    let e = entries_events(s, s.transactions.len() as int);
    lemma_block_self(e);
    lemma_block_extend(x, e, seq![end_v("Stmt"@)], e);
}

proof fn lemma_statements_hold(ss: Seq<StatementV>, creation_time: Seq<char>, n: int, i: int)
    requires
        0 <= i < n <= ss.len(),
    ensures
        holds_block(statements_events(ss, creation_time, n), statement_events(ss[i], creation_time)),
    decreases n,
{
    let st = statement_events(ss[i], creation_time);
    let empty = Seq::<XmlEventV>::empty();
    if i == n - 1 {
        lemma_block_self(st);
        lemma_block_extend(statements_events(ss, creation_time, n - 1), st, empty, st);
        assert(statements_events(ss, creation_time, n - 1) + st + empty =~= statements_events(
            ss,
            creation_time,
            n,
        ));
    } else {
        lemma_statements_hold(ss, creation_time, n - 1, i);
        let last = statement_events(ss[n - 1], creation_time);
        lemma_block_extend(empty, statements_events(ss, creation_time, n - 1), last, st);
        assert(empty + statements_events(ss, creation_time, n - 1) + last =~= statements_events(
            ss,
            creation_time,
            n,
        ));
    }
}

/// Every transaction of every statement has its entry in the camt.053
/// document: the entry `TXN-<k + 1>` of transaction `k` of statement `i`
/// carries its amount with two decimals in the statement currency,
/// `CdtDbtInd` `DBIT` exactly for a debit (`D`) or a reversed credit (`RC`),
/// `CRDT` for a credit (`C`) or a reversed debit (`RD`), and `RvslInd`
/// `true` exactly for the reversals.
pub proof fn law_camt_document_entries(
    ss: Seq<StatementV>,
    creation_time: Seq<char>,
    millis: int,
    i: int,
    k: int,
)
    requires
        0 <= i < ss.len(),
        0 <= k < ss[i].transactions.len(),
    ensures
        exists|off: int|
            {
                let tx = ss[i].transactions[k];
                let d = tx.debit_credit;
                &&& 0 <= off && off + 13 <= camt053_events(ss, creation_time, millis).len()
                &&& #[trigger] camt053_events(ss, creation_time, millis)[off] == start_v("Ntry"@)
                &&& camt053_events(ss, creation_time, millis).subrange(off + 1, off + 4) == text_elem_v(
                    "NtryRef"@,
                    "TXN-"@ + decimal_text((k + 1) as nat),
                )
                &&& camt053_events(ss, creation_time, millis).subrange(off + 4, off + 7) == amt_elem_v(
                    ss[i].opening_balance.currency,
                    decimal_display(tx.amount, Some(2)),
                )
                &&& camt053_events(ss, creation_time, millis).subrange(off + 7, off + 10) == text_elem_v(
                    "CdtDbtInd"@,
                    if d == DebitOrCredit::Debit || d == DebitOrCredit::ReversalCredit {
                        "DBIT"@
                    } else {
                        "CRDT"@
                    },
                )
                &&& camt053_events(ss, creation_time, millis).subrange(off + 10, off + 13) == text_elem_v(
                    "RvslInd"@,
                    if d == DebitOrCredit::ReversalDebit || d == DebitOrCredit::ReversalCredit {
                        "true"@
                    } else {
                        "false"@
                    },
                )
            },
{
    let s = ss[i];
    let ccy = s.opening_balance.currency;
    let tx = s.transactions[k];
    let te = transaction_events(ccy, tx, k as nat);
    let es = camt053_events(ss, creation_time, millis);
    lemma_document_holds_entry(ss, creation_time, millis, i, k);
    law_camt_entry_indicators(ccy, tx, k as nat);
    let off = choose|off: int|
        0 <= off && off + te.len() <= es.len() && #[trigger] es.subrange(off, off + te.len())
            == te;
    assert(te.len() >= 13) by {
        reveal(transaction_events);
    }
    assert(es[off] == te[0]) by {
        assert(es.subrange(off, off + te.len())[0] == es[off]);
    }
    assert(es.subrange(off + 1, off + 4) =~= te.subrange(1, 4));
    assert(es.subrange(off + 4, off + 7) =~= te.subrange(4, 7));
    assert(es.subrange(off + 7, off + 10) =~= te.subrange(7, 10));
    assert(es.subrange(off + 10, off + 13) =~= te.subrange(10, 13));
}

proof fn lemma_document_holds_entry(
    ss: Seq<StatementV>,
    creation_time: Seq<char>,
    millis: int,
    i: int,
    k: int,
)
    requires
        0 <= i < ss.len(),
        0 <= k < ss[i].transactions.len(),
    ensures
        holds_block(
            camt053_events(ss, creation_time, millis),
            transaction_events(
                ss[i].opening_balance.currency,
                ss[i].transactions[k],
                k as nat,
            ),
        ),
{
    let s = ss[i];
    let te = transaction_events(s.opening_balance.currency, s.transactions[k], k as nat);
    lemma_entries_hold(s, s.transactions.len() as int, k);
    lemma_statement_holds_entries(s, creation_time);
    lemma_block_trans(
        statement_events(s, creation_time),
        entries_events(s, s.transactions.len() as int),
        te,
    );
    lemma_statements_hold(ss, creation_time, ss.len() as int, i);
    let all = statements_events(ss, creation_time, ss.len() as int);
    lemma_block_trans(all, statement_events(s, creation_time), te);
    let x = seq![
        XmlEventV::Decl { version: "1.0"@, encoding: "UTF-8"@ },
        XmlEventV::Start {
            name: "Document"@,
            attr: Some(("xmlns"@, "urn:iso:std:iso:20022:tech:xsd:camt.053.001.06"@)),
        },
        start_v("BkToCstmrStmt"@),
        start_v("GrpHdr"@),
    ] + text_elem_v("MsgId"@, message_id(ss, millis)) + text_elem_v("CreDtTm"@, creation_time)
        + seq![end_v("GrpHdr"@)];
    let y = seq![end_v("BkToCstmrStmt"@), end_v("Document"@)];
    lemma_block_extend(x, all, y, te);
}

/// The error for a failed XML write, with the writer's message `detail`.
pub open spec fn xml_error_v(detail: Seq<char>) -> ParseErrorV {
    ParseErrorV::Parse { message: "camt.053 XML error: "@ + detail }
}

/// The error for output that is not UTF-8, with the decoder's message `detail`.
pub open spec fn encoding_error_v(detail: Seq<char>) -> ParseErrorV {
    ParseErrorV::Parse { message: "camt.053 encoding error: "@ + detail }
}

// ---------------------------------------------------------------------------
// Writing
// ---------------------------------------------------------------------------

/// The library error for an XML write error.
pub fn io_err(e: std::io::Error) -> (r: ParseError)
    ensures
        exists|d: Seq<char>| r@ == xml_error_v(d),
{
    let detail = io_error_text(&e);
    let mut message = string_from("camt.053 XML error: ");
    push_str(&mut message, detail.as_str());
    let r = ParseError::Parse { message };
    assert(r@ == xml_error_v(detail@));
    r
}

fn start(w: &mut Writer<Vec<u8>>, name: &str) -> (r: Result<(), ParseError>)
    ensures
        xml_indent(*final(w)) == xml_indent(*old(w)),
        r is Ok,
        xml_events(*final(w)) == xml_events(*old(w)).push(start_v(name@)),
{
    match xml_write_start(w, name) {
        Ok(()) => Ok(()),
        Err(e) => Err(io_err(e)),
    }
}

fn end(w: &mut Writer<Vec<u8>>, name: &str) -> (r: Result<(), ParseError>)
    ensures
        xml_indent(*final(w)) == xml_indent(*old(w)),
        r is Ok,
        xml_events(*final(w)) == xml_events(*old(w)).push(end_v(name@)),
{
    match xml_write_end(w, name) {
        Ok(()) => Ok(()),
        Err(e) => Err(io_err(e)),
    }
}

/// Writes `<name>text</name>`.
fn write_text_elem(w: &mut Writer<Vec<u8>>, name: &str, text: &str) -> (r: Result<(), ParseError>)
    ensures
        xml_indent(*final(w)) == xml_indent(*old(w)),
        r is Ok,
        xml_events(*final(w)) == xml_events(*old(w)) + text_elem_v(name@, text@),
{
    match xml_write_text_elem(w, name, text) {
        Ok(()) => Ok(()),
        Err(e) => Err(io_err(e)),
    }
}

/// Writes `<Amt Ccy="ccy">text</Amt>`.
fn write_amt_elem(w: &mut Writer<Vec<u8>>, ccy: &str, text: &str) -> (r: Result<(), ParseError>)
    ensures
        xml_indent(*final(w)) == xml_indent(*old(w)),
        r is Ok,
        xml_events(*final(w)) == xml_events(*old(w)) + amt_elem_v(ccy@, text@),
{
    let ghost w0 = xml_events(*w);
    match xml_write_start_attr(w, "Amt", "Ccy", ccy) {
        Ok(()) => {},
        Err(e) => {
            return Err(io_err(e));
        },
    }
    match xml_write_text(w, text) {
        Ok(()) => {},
        Err(e) => {
            return Err(io_err(e));
        },
    }
    end(w, "Amt")?;
    assert(xml_events(*w) =~= w0 + amt_elem_v(ccy@, text@));
    Ok(())
}

/// Writes a balance with type code `code`.
fn write_balance(w: &mut Writer<Vec<u8>>, code: &str, bal: &Balance) -> (r: Result<(), ParseError>)
    ensures
        xml_indent(*final(w)) == xml_indent(*old(w)),
        r is Ok,
        xml_events(*final(w)) == xml_events(*old(w)) + balance_events(code@, bal@),
{
    let ghost w0 = xml_events(*w);
    let dc = if bal.debit_credit.is_debit() {
        "DBIT"
    } else {
        "CRDT"
    };
    let amt = bal.amount.to_string_2dp();
    start(w, "Bal")?;
    start(w, "Tp")?;
    start(w, "CdOrPrtry")?;
    write_text_elem(w, "Cd", code)?;
    end(w, "CdOrPrtry")?;
    end(w, "Tp")?;
    write_amt_elem(w, bal.currency.as_str(), amt.as_str())?;
    write_text_elem(w, "CdtDbtInd", dc)?;
    start(w, "Dt")?;
    write_text_elem(w, "Dt", date_string(&bal.date).as_str())?;
    end(w, "Dt")?;
    end(w, "Bal")?;
    assert(xml_events(*w) =~= w0 + balance_events(code@, bal@));
    Ok(())
}

/// Writes the related party of `tx`, if it names one.
fn write_parties(w: &mut Writer<Vec<u8>>, tx: &Transaction) -> (r: Result<(), ParseError>)
    ensures
        xml_indent(*final(w)) == xml_indent(*old(w)),
        r is Ok,
        xml_events(*final(w)) == xml_events(*old(w)) + parties_events(tx@),
{
    let ghost w0 = xml_events(*w);
    let cp_name = match tx.counterparty() {
        Some(n) => n,
        None => String::new(),
    };
    let cp_iban = match tx.counter_iban() {
        Some(i) => i,
        None => String::new(),
    };
    if cp_name.as_str().is_empty() {
        assert(xml_events(*w) =~= w0 + parties_events(tx@));
        return Ok(());
    }
    let (party, acct) = if tx.debit_credit.is_debit() {
        ("Cdtr", "CdtrAcct")
    } else {
        ("Dbtr", "DbtrAcct")
    };
    start(w, "RltdPties")?;
    start(w, party)?;
    start(w, "Pty")?;
    write_text_elem(w, "Nm", cp_name.as_str())?;
    end(w, "Pty")?;
    end(w, party)?;
    if !cp_iban.as_str().is_empty() {
        start(w, acct)?;
        start(w, "Id")?;
        write_text_elem(w, "IBAN", cp_iban.as_str())?;
        end(w, "Id")?;
        end(w, acct)?;
    }
    end(w, "RltdPties")?;
    assert(xml_events(*w) =~= w0 + parties_events(tx@));
    Ok(())
}

/// Writes the remittance information of `tx`.
fn write_purpose(w: &mut Writer<Vec<u8>>, tx: &Transaction) -> (r: Result<(), ParseError>)
    ensures
        xml_indent(*final(w)) == xml_indent(*old(w)),
        r is Ok,
        xml_events(*final(w)) == xml_events(*old(w)) + purpose_events(tx@),
{
    let ghost w0 = xml_events(*w);
    let purpose = match tx.purpose() {
        Some(p) => p,
        None => string_from(tx.details.as_str()),
    };
    start(w, "RmtInf")?;
    write_text_elem(w, "Ustrd", purpose.as_str())?;
    end(w, "RmtInf")?;
    assert(xml_events(*w) =~= w0 + purpose_events(tx@));
    Ok(())
}

fn write_entry_amount(w: &mut Writer<Vec<u8>>, ccy: &str, tx: &Transaction, idx: usize) -> (r:
    Result<(), ParseError>)
    requires
        idx < usize::MAX,
    ensures
        xml_indent(*final(w)) == xml_indent(*old(w)),
        r is Ok,
        xml_events(*final(w)) == xml_events(*old(w)) + entry_amount_events(
            ccy@,
            tx@,
            idx as nat,
        ),
{
    let ghost w0 = xml_events(*w);
    let dc = if tx.debit_credit.is_debit() {
        "DBIT"
    } else {
        "CRDT"
    };
    let reversal = if tx.debit_credit.is_reversal() {
        "true"
    } else {
        "false"
    };
    let amt = tx.amount.to_string_2dp();
    let mut ntry_ref = string_from("TXN-");
    push_str(&mut ntry_ref, decimal_string((idx + 1) as u64).as_str());
    write_text_elem(w, "NtryRef", ntry_ref.as_str())?;
    write_amt_elem(w, ccy, amt.as_str())?;
    write_text_elem(w, "CdtDbtInd", dc)?;
    write_text_elem(w, "RvslInd", reversal)?;
    assert(xml_events(*w) =~= w0 + entry_amount_events(ccy@, tx@, idx as nat));
    Ok(())
}

fn write_entry_dates(w: &mut Writer<Vec<u8>>, tx: &Transaction) -> (r: Result<(), ParseError>)
    ensures
        xml_indent(*final(w)) == xml_indent(*old(w)),
        r is Ok,
        xml_events(*final(w)) == xml_events(*old(w)) + entry_dates_events(tx@),
{
    let ghost w0 = xml_events(*w);
    let booking = match &tx.entry_date {
        Some(d) => date_string(d),
        None => date_string(&tx.value_date),
    };
    start(w, "BookgDt")?;
    write_text_elem(w, "Dt", booking.as_str())?;
    end(w, "BookgDt")?;
    start(w, "ValDt")?;
    write_text_elem(w, "Dt", date_string(&tx.value_date).as_str())?;
    end(w, "ValDt")?;
    start(w, "BkTxCd")?;
    start(w, "Prtry")?;
    write_text_elem(w, "Cd", tx.transaction_type.as_str())?;
    end(w, "Prtry")?;
    end(w, "BkTxCd")?;
    assert(xml_events(*w) =~= w0 + entry_dates_events(tx@));
    Ok(())
}

/// Writes entry `idx` (from 0), transaction `tx` of statement `s`.
fn write_transaction(w: &mut Writer<Vec<u8>>, s: &Statement, tx: &Transaction, idx: usize) -> (r:
    Result<(), ParseError>)
    requires
        idx < usize::MAX,
    ensures
        xml_indent(*final(w)) == xml_indent(*old(w)),
        r is Ok,
        xml_events(*final(w)) == xml_events(*old(w)) + transaction_events(
            s@.opening_balance.currency,
            tx@,
            idx as nat,
        ),
{
    let ghost w0 = xml_events(*w);
    start(w, "Ntry")?;
    write_entry_amount(w, s.opening_balance.currency.as_str(), tx, idx)?;
    write_entry_dates(w, tx)?;
    start(w, "NtryDtls")?;
    start(w, "TxDtls")?;
    write_parties(w, tx)?;
    write_purpose(w, tx)?;
    end(w, "TxDtls")?;
    end(w, "NtryDtls")?;
    end(w, "Ntry")?;
    reveal(transaction_events);
    assert(xml_events(*w) =~= w0 + transaction_events(
        s@.opening_balance.currency,
        tx@,
        idx as nat,
    ));
    Ok(())
}

/// Writes statement `s`, created at `creation_time`.
fn write_statement(w: &mut Writer<Vec<u8>>, s: &Statement, creation_time: &str) -> (r: Result<
    (),
    ParseError,
>)
    ensures
        xml_indent(*final(w)) == xml_indent(*old(w)),
        r is Ok,
        xml_events(*final(w)) == xml_events(*old(w)) + statement_events(
            s@,
            creation_time@,
        ),
{
    let ghost w0 = xml_events(*w);
    start(w, "Stmt")?;
    write_text_elem(w, "Id", s.transaction_reference.as_str())?;
    write_text_elem(w, "CreDtTm", creation_time)?;
    start(w, "Acct")?;
    start(w, "Id")?;
    write_text_elem(w, "IBAN", s.account_identification.as_str())?;
    end(w, "Id")?;
    write_text_elem(w, "Ccy", s.opening_balance.currency.as_str())?;
    end(w, "Acct")?;
    write_balance(w, "OPBD", &s.opening_balance)?;
    write_balance(w, "CLBD", &s.closing_balance)?;
    let ghost w1 = xml_events(*w);
    let n = s.transactions.len();
    let mut i: usize = 0;
    while i < n
        invariant
            n == s.transactions@.len(),
            i <= n,
            xml_indent(*w) == xml_indent(*old(w)),
            xml_events(*w) == w1 + entries_events(s@, i as int),
        decreases n - i,
    {
        assert(s@.transactions[i as int] == s.transactions@[i as int]@);
        write_transaction(w, s, &s.transactions[i], i)?;
        i += 1;
    }
    end(w, "Stmt")?;
    reveal(statement_events);
    assert(xml_events(*w) =~= w0 + statement_events(s@, creation_time@));
    Ok(())
}

/// The text of the camt.053 document for the events `events`: what
/// `quick_xml` writes for them with a two-space indent.
pub open spec fn camt053_result(events: Seq<XmlEventV>, r: Result<String, ParseError>) -> bool {
    let bytes = xml_document(events, 32u8, 2);
    r matches Ok(s) && valid_utf8(bytes) && s@ == decode_utf8(bytes)
}

/// The camt.053 document of `statements`, created at `creation_time`, with a
/// message id stamped `millis`.
pub fn camt053_document(statements: &[Statement], creation_time: &str, millis: i64) -> (r: Result<
    String,
    ParseError,
>)
    ensures
        camt053_result(camt053_events(statements_v(statements@), creation_time@, millis as int), r),
{
    let ghost ss = statements_v(statements@);
    let mut w = xml_writer_new(32u8, 2);
    let ghost w0 = xml_events(w);
    match xml_write_decl(&mut w, "1.0", "UTF-8") {
        Ok(()) => {},
        Err(e) => {
            return Err(io_err(e));
        },
    }
    match xml_write_start_attr(
        &mut w,
        "Document",
        "xmlns",
        "urn:iso:std:iso:20022:tech:xsd:camt.053.001.06",
    ) {
        Ok(()) => {},
        Err(e) => {
            return Err(io_err(e));
        },
    }
    start(&mut w, "BkToCstmrStmt")?;
    let first_ref = if statements.len() > 0 {
        statements[0].transaction_reference.as_str()
    } else {
        "export"
    };
    let mut msg_id = string_from("MT940-");
    push_str(&mut msg_id, first_ref);
    msg_id.push('-');
    push_str(&mut msg_id, int_string(millis).as_str());
    assert(msg_id@ =~= message_id(ss, millis as int));
    start(&mut w, "GrpHdr")?;
    write_text_elem(&mut w, "MsgId", msg_id.as_str())?;
    write_text_elem(&mut w, "CreDtTm", creation_time)?;
    end(&mut w, "GrpHdr")?;
    let ghost w1 = xml_events(w);
    let mut i: usize = 0;
    while i < statements.len()
        invariant
            ss == statements_v(statements@),
            i <= statements@.len(),
            xml_indent(w) == (32u8, 2nat),
            xml_events(w) == w1 + statements_events(ss, creation_time@, i as int),
        decreases statements@.len() - i,
    {
        write_statement(&mut w, &statements[i], creation_time)?;
        i += 1;
    }
    end(&mut w, "BkToCstmrStmt")?;
    end(&mut w, "Document")?;
    let ghost events = camt053_events(ss, creation_time@, millis as int);
    assert(xml_events(w) =~= events);
    let bytes = xml_into_bytes(w);
    match utf8_string(bytes) {
        Ok(text) => Ok(text),
        Err(e) => {
            let detail = utf8_error_text(&e);
            let mut message = string_from("camt.053 encoding error: ");
            push_str(&mut message, detail.as_str());
            let err = ParseError::Parse { message };
            assert(err@ == encoding_error_v(detail@));
            Err(err)
        },
    }
}

/// Export statements as camt.053 XML (ISO 20022 bank-to-customer
/// statement, `camt.053.001.06`), created now: the group header carries a
/// message id and the creation time, then each statement with its account,
/// opening and closing balances and one entry per transaction.
///
/// The creation time and the message id's timestamp come from the clock.
pub fn to_camt053(statements: &[Statement]) -> (r: Result<String, ParseError>)
    ensures
        exists|creation_time: Seq<char>, millis: i64|
            utc_stamp_shape(creation_time) && camt053_result(
                camt053_events(statements_v(statements@), creation_time, millis as int),
                r,
            ),
{
    let creation_time = utc_now_formatted("%Y-%m-%dT%H:%M:%SZ");
    let millis = utc_now_millis();
    let r = camt053_document(statements, creation_time.as_str(), millis);
    assert(camt053_result(
        camt053_events(statements_v(statements@), creation_time@, millis as int),
        r,
    ));
    r
}

} // verus!
