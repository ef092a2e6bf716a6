//! CSV export.
use vstd::prelude::*;
use crate::amounts::decimal_display;
use crate::dates::ymd_text;
use crate::decoders::or_empty;
use crate::error::ParseError;
use crate::models::{
    dc_is_reversal, signed_amount_v, tx_counter_iban, tx_counterparty, DebitOrCredit, Transaction,
    TransactionV,
};
use crate::parser::statements_v;
use crate::statement::{Statement, StatementV};
use crate::text::{push_str, string_from};
use super::{booking_date_text, csv_escape, csv_escape_v, date_string, purpose_or_details};

verus! {

/// The header line's column names.
pub open spec fn csv_header() -> Seq<char> {
    "Statement,Account,Currency,Date,EntryDate,Type,Reference,BankRef,Counterparty,CounterIBAN,Purpose,Amount,IsReversal"@
}

/// The text columns of the line of transaction `tx` of statement `st`.
pub open spec fn csv_text_columns(st: StatementV, tx: TransactionV) -> Seq<Seq<char>> {
    seq![
        st.statement_number.statement,
        st.account_identification,
        st.opening_balance.currency,
        ymd_text(tx.value_date),
        booking_date_text(tx),
        tx.transaction_type,
        tx.customer_reference,
        or_empty(tx.bank_reference),
        or_empty(tx_counterparty(tx)),
        or_empty(tx_counter_iban(tx)),
        purpose_or_details(tx),
    ]
}

/// The first `n` columns of `cols`, each escaped and followed by a comma.
pub open spec fn escaped_columns(cols: Seq<Seq<char>>, n: int) -> Seq<char>
    decreases n,
{
    if n <= 0 {
        Seq::empty()
    } else {
        escaped_columns(cols, n - 1) + csv_escape_v(cols[n - 1]) + seq![',']
    }
}

/// One CSV line for transaction `tx` of statement `st`: the escaped text
/// columns, the signed amount with two decimals, and `Y`/`N` for reversals.
pub open spec fn csv_row(st: StatementV, tx: TransactionV) -> Seq<char> {
    escaped_columns(csv_text_columns(st, tx), 11) + decimal_display(signed_amount_v(tx), Some(2))
        + seq![','] + (if dc_is_reversal(tx.debit_credit) {
        seq!['Y']
    } else {
        seq!['N']
    }) + seq!['\n']
}

/// The Amount column of a transaction's line is its amount with two
/// decimals, unsigned, led by `-` exactly when a debit (`D`, `RC`) has a
/// positive stored amount or a credit (`C`, `RD`) a negative one; the last
/// column is `Y` exactly for reversals (`RD`, `RC`).
pub proof fn law_csv_amount_column(st: StatementV, tx: TransactionV)
    ensures
        ({
            let debit = tx.debit_credit == DebitOrCredit::Debit || tx.debit_credit
                == DebitOrCredit::ReversalCredit;
            let reversal = tx.debit_credit == DebitOrCredit::ReversalDebit || tx.debit_credit
                == DebitOrCredit::ReversalCredit;
            let unsigned = crate::amounts::AmountV { negative: false, ..tx.amount };
            csv_row(st, tx) == escaped_columns(csv_text_columns(st, tx), 11) + (if debit
                != tx.amount.negative {
                seq!['-']
            } else {
                Seq::<char>::empty()
            }) + decimal_display(unsigned, Some(2)) + seq![','] + (if reversal {
                seq!['Y']
            } else {
                seq!['N']
            }) + seq!['\n']
        }),
{
    let unsigned = crate::amounts::AmountV { negative: false, ..tx.amount };
    let signed = signed_amount_v(tx);
    assert(signed.mantissa == unsigned.mantissa && signed.scale == unsigned.scale);
    assert(decimal_display(signed, Some(2)) =~= if signed.negative {
        seq!['-'] + decimal_display(unsigned, Some(2))
    } else {
        decimal_display(unsigned, Some(2))
    });
}

/// The lines of the first `n` transactions of `st`.
pub open spec fn csv_rows(st: StatementV, n: int) -> Seq<char>
    decreases n,
{
    if n <= 0 {
        Seq::empty()
    } else {
        csv_rows(st, n - 1) + csv_row(st, st.transactions[n - 1])
    }
}

/// The lines of all transactions of the first `n` statements.
pub open spec fn csv_body(ss: Seq<StatementV>, n: int) -> Seq<char>
    decreases n,
{
    if n <= 0 {
        Seq::empty()
    } else {
        csv_body(ss, n - 1) + csv_rows(ss[n - 1], ss[n - 1].transactions.len() as int)
    }
}

/// The CSV document: a byte-order mark, the header line, then one line per
/// transaction, statement by statement.
pub open spec fn csv_text(ss: Seq<StatementV>) -> Seq<char> {
    seq!['\u{FEFF}'] + csv_header() + seq!['\n'] + csv_body(ss, ss.len() as int)
}

fn opt_string(o: &Option<String>) -> (r: String)
    ensures
        r@ == or_empty(crate::models::opt_string_v(*o)),
{
    match o {
        Some(s) => string_from(s.as_str()),
        None => String::new(),
    }
}

/// Appends the CSV line of `tx` (of statement `s`).
fn write_csv_row(out: &mut String, s: &Statement, tx: &Transaction)
    ensures
        final(out)@ == old(out)@ + csv_row(s@, tx@),
{
    let ghost start = out@;
    let purpose = match tx.purpose() {
        Some(p) => p,
        None => string_from(tx.details.as_str()),
    };
    let entry_str = match &tx.entry_date {
        Some(d) => date_string(d),
        None => date_string(&tx.value_date),
    };
    let columns: Vec<String> = vec![
        string_from(s.statement_number.statement.as_str()),
        string_from(s.account_identification.as_str()),
        string_from(s.opening_balance.currency.as_str()),
        date_string(&tx.value_date),
        entry_str,
        string_from(tx.transaction_type.as_str()),
        string_from(tx.customer_reference.as_str()),
        opt_string(&tx.bank_reference),
        opt_string(&tx.counterparty()),
        opt_string(&tx.counter_iban()),
        purpose,
    ];
    let ghost cols = csv_text_columns(s@, tx@);
    assert(columns@.len() == 11);
    assert forall|k: int| 0 <= k < 11 implies #[trigger] columns@[k]@ == cols[k] by {}
    let mut k: usize = 0;
    while k < 11
        invariant
            columns@.len() == 11,
            forall|x: int| 0 <= x < 11 ==> #[trigger] columns@[x]@ == cols[x],
            k <= 11,
            out@ == start + escaped_columns(cols, k as int),
        decreases 11 - k,
    {
        let e = csv_escape(columns[k].as_str());
        push_str(out, e.as_str());
        out.push(',');
        k += 1;
    }
    let amount_str = tx.signed_amount().to_string_2dp();
    push_str(out, amount_str.as_str());
    out.push(',');
    if tx.debit_credit.is_reversal() {
        out.push('Y');
    } else {
        out.push('N');
    }
    out.push('\n');
    assert(out@ =~= start + csv_row(s@, tx@));
}

/// Export statements as CSV: a byte-order mark (for spreadsheet programs),
/// a header line, and one line per transaction with its statement number,
/// account and currency, dates, references, counterparty, purpose, signed
/// amount and reversal flag.
pub fn to_csv(statements: &[Statement]) -> (r: Result<String, ParseError>)
    ensures
        r matches Ok(s) && s@ == csv_text(statements_v(statements@)),
{
    let ghost ss = statements_v(statements@);
    let mut out = String::new();
    out.push('\u{FEFF}');
    push_str(&mut out, "Statement,Account,Currency,Date,EntryDate,Type,Reference,BankRef,Counterparty,CounterIBAN,Purpose,Amount,IsReversal");
    out.push('\n');
    let ghost head = out@;
    let mut i: usize = 0;
    while i < statements.len()
        invariant
            ss == statements_v(statements@),
            i <= statements@.len(),
            out@ == head + csv_body(ss, i as int),
        decreases statements@.len() - i,
    {
        let s = &statements[i];
        let ghost st = ss[i as int];
        assert(st == s@);
        let ghost before = out@;
        let mut j: usize = 0;
        while j < s.transactions.len()
            invariant
                st == s@,
                st.transactions == crate::statement::transactions_v(s.transactions@),
                j <= s.transactions@.len(),
                out@ == before + csv_rows(st, j as int),
            decreases s.transactions@.len() - j,
        {
            assert(st.transactions[j as int] == s.transactions@[j as int]@);
            write_csv_row(&mut out, s, &s.transactions[j]);
            j += 1;
        }
        i += 1;
    }
    assert(out@ =~= csv_text(ss));
    Ok(out)
}

} // verus!
