//! The JSON document: one object per statement with its transactions.
//!
//! This module builds the document's values; writing them as JSON text is
//! left to a serializer.
use vstd::prelude::*;
use crate::amounts::{Amount, AmountV};
use crate::dates::ymd_text;
use crate::decoders::or_empty;
use crate::models::{
    dc_is_reversal, opt_string_v, signed_amount_v, single_map, FieldMap, Transaction,
    TransactionV,
};
use crate::parser::statements_v;
use crate::statement::{Statement, StatementV};
use crate::text::string_from;
use super::{date_iso, date_string, midnight_suffix};

verus! {

/// A transaction as the JSON document shows it.
pub struct JsonTxn {
    pub date: String,
    pub entry_date: Option<String>,
    pub funds_code: Option<String>,
    /// The signed amount (negative for debits).
    pub amount: Amount,
    pub is_reversal: bool,
    pub transaction_type: String,
    pub reference: String,
    pub bank_reference: String,
    pub extra_details: String,
    pub currency: String,
    pub details: String,
    pub structured_details: Option<FieldMap>,
}

pub struct JsonTxnV {
    pub date: Seq<char>,
    pub entry_date: Option<Seq<char>>,
    pub funds_code: Option<Seq<char>>,
    pub amount: AmountV,
    pub is_reversal: bool,
    pub transaction_type: Seq<char>,
    pub reference: Seq<char>,
    pub bank_reference: Seq<char>,
    pub extra_details: Seq<char>,
    pub currency: Seq<char>,
    pub details: Seq<char>,
    pub structured_details: Option<Map<Seq<char>, Seq<char>>>,
}

impl View for JsonTxn {
    type V = JsonTxnV;

    open spec fn view(&self) -> JsonTxnV {
        JsonTxnV {
            date: self.date@,
            entry_date: opt_string_v(self.entry_date),
            funds_code: opt_string_v(self.funds_code),
            amount: self.amount@,
            is_reversal: self.is_reversal,
            transaction_type: self.transaction_type@,
            reference: self.reference@,
            bank_reference: self.bank_reference@,
            extra_details: self.extra_details@,
            currency: self.currency@,
            details: self.details@,
            structured_details: crate::models::opt_map_v(self.structured_details),
        }
    }
}

/// The statement number object (`section` is always empty).
pub struct JsonStmtNumber {
    pub statement: String,
    pub sequence: Option<String>,
    pub section: String,
}

pub struct JsonStmtNumberV {
    pub statement: Seq<char>,
    pub sequence: Option<Seq<char>>,
    pub section: Seq<char>,
}

impl View for JsonStmtNumber {
    type V = JsonStmtNumberV;

    open spec fn view(&self) -> JsonStmtNumberV {
        JsonStmtNumberV {
            statement: self.statement@,
            sequence: opt_string_v(self.sequence),
            section: self.section@,
        }
    }
}

/// A statement as the JSON document shows it.
pub struct JsonStmt {
    pub transaction_reference: String,
    pub related_reference: String,
    pub account_identification: String,
    pub number: JsonStmtNumber,
    pub statement_date: String,
    pub opening_balance_date: String,
    pub closing_balance_date: String,
    pub closing_available_balance_date: String,
    pub forward_available_balance_date: String,
    pub currency: String,
    pub opening_balance: Amount,
    pub closing_balance: Amount,
    pub closing_available_balance: Amount,
    pub forward_available_balance: Amount,
    pub information_to_account_owner: String,
    pub transactions: Vec<JsonTxn>,
}

pub struct JsonStmtV {
    pub transaction_reference: Seq<char>,
    pub related_reference: Seq<char>,
    pub account_identification: Seq<char>,
    pub number: JsonStmtNumberV,
    pub statement_date: Seq<char>,
    pub opening_balance_date: Seq<char>,
    pub closing_balance_date: Seq<char>,
    pub closing_available_balance_date: Seq<char>,
    pub forward_available_balance_date: Seq<char>,
    pub currency: Seq<char>,
    pub opening_balance: AmountV,
    pub closing_balance: AmountV,
    pub closing_available_balance: AmountV,
    pub forward_available_balance: AmountV,
    pub information_to_account_owner: Seq<char>,
    pub transactions: Seq<JsonTxnV>,
}

pub open spec fn json_txns_v(v: Seq<JsonTxn>) -> Seq<JsonTxnV> {
    v.map_values(|t: JsonTxn| t@)
}

impl View for JsonStmt {
    type V = JsonStmtV;

    open spec fn view(&self) -> JsonStmtV {
        JsonStmtV {
            transaction_reference: self.transaction_reference@,
            related_reference: self.related_reference@,
            account_identification: self.account_identification@,
            number: self.number@,
            statement_date: self.statement_date@,
            opening_balance_date: self.opening_balance_date@,
            closing_balance_date: self.closing_balance_date@,
            closing_available_balance_date: self.closing_available_balance_date@,
            forward_available_balance_date: self.forward_available_balance_date@,
            currency: self.currency@,
            opening_balance: self.opening_balance@,
            closing_balance: self.closing_balance@,
            closing_available_balance: self.closing_available_balance@,
            forward_available_balance: self.forward_available_balance@,
            information_to_account_owner: self.information_to_account_owner@,
            transactions: json_txns_v(self.transactions@),
        }
    }
}

pub open spec fn json_stmts_v(v: Seq<JsonStmt>) -> Seq<JsonStmtV> {
    v.map_values(|s: JsonStmt| s@)
}

/// The JSON view of transaction `tx`, in a statement of currency `currency`.
/// Its structured details are always present: the decoded `:86:` fields, or
/// the raw details under `detail` when no `:86:` was decoded.
pub open spec fn json_txn_v(tx: TransactionV, currency: Seq<char>) -> JsonTxnV {
    JsonTxnV {
        date: ymd_text(tx.value_date),
        entry_date: match tx.entry_date {
            Some(d) => Some(ymd_text(d)),
            None => None,
        },
        funds_code: tx.funds_code,
        amount: signed_amount_v(tx),
        is_reversal: dc_is_reversal(tx.debit_credit),
        transaction_type: tx.transaction_type,
        reference: tx.customer_reference,
        bank_reference: or_empty(tx.bank_reference),
        extra_details: or_empty(tx.supplementary),
        currency,
        details: tx.details,
        structured_details: Some(
            match tx.structured_details {
                Some(m) => m,
                None => single_map("detail"@, tx.details),
            },
        ),
    }
}

/// The JSON view of statement `s`. The statement date is the closing
/// balance's; an available balance that is absent is shown as the closing
/// balance (date and amount).
pub open spec fn json_stmt_v(s: StatementV) -> JsonStmtV {
    let closing = s.closing_balance;
    let available = match s.closing_available {
        Some(b) => b,
        None => closing,
    };
    let forward = match s.forward_available {
        Some(b) => b,
        None => closing,
    };
    JsonStmtV {
        transaction_reference: s.transaction_reference,
        related_reference: or_empty(s.related_reference),
        account_identification: s.account_identification,
        number: JsonStmtNumberV {
            statement: s.statement_number.statement,
            sequence: s.statement_number.sequence,
            section: Seq::empty(),
        },
        statement_date: ymd_text(closing.date),
        opening_balance_date: ymd_text(s.opening_balance.date),
        closing_balance_date: ymd_text(closing.date),
        closing_available_balance_date: ymd_text(available.date) + midnight_suffix(),
        forward_available_balance_date: ymd_text(forward.date) + midnight_suffix(),
        currency: s.opening_balance.currency,
        opening_balance: s.opening_balance.amount,
        closing_balance: closing.amount,
        closing_available_balance: available.amount,
        forward_available_balance: forward.amount,
        information_to_account_owner: or_empty(s.info_to_owner),
        transactions: s.transactions.map_values(
            |t: TransactionV| json_txn_v(t, s.opening_balance.currency),
        ),
    }
}

/// A statement's JSON balances are its own: `openingBalance` is the amount
/// of the opening (`:60F:`/`:60M:`) balance, `closingBalance` that of the
/// closing (`:62F:`/`:62M:`) balance, the available balances those of
/// `:64:` and `:65:`, each defaulting to the closing balance; the currency
/// is the opening balance's; the transactions are the statement's, in order,
/// each in that currency.
pub proof fn law_json_balances(s: StatementV)
    ensures
        json_stmt_v(s).opening_balance == s.opening_balance.amount,
        json_stmt_v(s).closing_balance == s.closing_balance.amount,
        json_stmt_v(s).closing_available_balance == match s.closing_available {
            Some(b) => b.amount,
            None => s.closing_balance.amount,
        },
        json_stmt_v(s).forward_available_balance == match s.forward_available {
            Some(b) => b.amount,
            None => s.closing_balance.amount,
        },
        json_stmt_v(s).currency == s.opening_balance.currency,
        json_stmt_v(s).transactions.len() == s.transactions.len(),
        forall|k: int|
            0 <= k < s.transactions.len() ==> #[trigger] json_stmt_v(s).transactions[k]
                == json_txn_v(s.transactions[k], s.opening_balance.currency),
{
}

/// JSON shows a transaction's signed amount: the stored amount with its
/// digits and scale, negative exactly for debits (`D` and `RC`).
pub proof fn law_json_amount_signed(tx: TransactionV, currency: Seq<char>)
    requires
        !tx.amount.negative,
    ensures
        json_txn_v(tx, currency).amount.negative == crate::models::dc_is_debit(tx.debit_credit),
        json_txn_v(tx, currency).amount.mantissa == tx.amount.mantissa,
        json_txn_v(tx, currency).amount.scale == tx.amount.scale,
{
}

fn clone_opt(o: &Option<String>) -> (r: Option<String>)
    ensures
        opt_string_v(r) == opt_string_v(*o),
{
    match o {
        Some(s) => Some(string_from(s.as_str())),
        None => None,
    }
}

fn opt_or_empty(o: &Option<String>) -> (r: String)
    ensures
        r@ == or_empty(opt_string_v(*o)),
{
    match o {
        Some(s) => string_from(s.as_str()),
        None => String::new(),
    }
}

/// The JSON view of one transaction.
pub fn txn_to_json(tx: &Transaction, currency: &str) -> (j: JsonTxn)
    ensures
        j@ == json_txn_v(tx@, currency@),
{
    JsonTxn {
        date: date_string(&tx.value_date),
        entry_date: match &tx.entry_date {
            Some(d) => Some(date_string(d)),
            None => None,
        },
        funds_code: clone_opt(&tx.funds_code),
        amount: tx.signed_amount(),
        is_reversal: tx.debit_credit.is_reversal(),
        transaction_type: string_from(tx.transaction_type.as_str()),
        reference: string_from(tx.customer_reference.as_str()),
        bank_reference: opt_or_empty(&tx.bank_reference),
        extra_details: opt_or_empty(&tx.supplementary),
        currency: string_from(currency),
        details: string_from(tx.details.as_str()),
        structured_details: match &tx.structured_details {
            Some(m) => Some(m.clone()),
            None => {
                let mut raw = FieldMap::new();
                raw.insert(string_from("detail"), string_from(tx.details.as_str()));
                Some(raw)
            },
        },
    }
}

/// The JSON view of one statement.
pub fn stmt_to_json(s: &Statement) -> (j: JsonStmt)
    ensures
        j@ == json_stmt_v(s@),
{
    let closing = &s.closing_balance;
    let available = match &s.closing_available {
        Some(b) => b,
        None => closing,
    };
    let forward = match &s.forward_available {
        Some(b) => b,
        None => closing,
    };
    let currency = s.opening_balance.currency.as_str();
    let mut transactions: Vec<JsonTxn> = Vec::new();
    let mut i: usize = 0;
    while i < s.transactions.len()
        invariant
            i <= s.transactions@.len(),
            currency@ == s.opening_balance.currency@,
            json_txns_v(transactions@) == crate::statement::transactions_v(
                s.transactions@.take(i as int),
            ).map_values(|t: TransactionV| json_txn_v(t, currency@)),
        decreases s.transactions@.len() - i,
    {
        let j = txn_to_json(&s.transactions[i], currency);
        let ghost before = transactions@;
        transactions.push(j);
        proof {
            assert(s.transactions@.take(i + 1) =~= s.transactions@.take(i as int).push(
                s.transactions@[i as int],
            ));
            assert(json_txns_v(transactions@) =~= json_txns_v(before).push(j@));
            assert(crate::statement::transactions_v(s.transactions@.take(i + 1)).map_values(
                |t: TransactionV| json_txn_v(t, currency@),
            ) =~= crate::statement::transactions_v(s.transactions@.take(i as int)).map_values(
                |t: TransactionV| json_txn_v(t, currency@),
            ).push(json_txn_v(s.transactions@[i as int]@, currency@)));
        }
        i += 1;
    }
    assert(s.transactions@.take(s.transactions@.len() as int) =~= s.transactions@);
    JsonStmt {
        transaction_reference: string_from(s.transaction_reference.as_str()),
        related_reference: opt_or_empty(&s.related_reference),
        account_identification: string_from(s.account_identification.as_str()),
        number: JsonStmtNumber {
            statement: string_from(s.statement_number.statement.as_str()),
            sequence: clone_opt(&s.statement_number.sequence),
            section: String::new(),
        },
        statement_date: date_string(&closing.date),
        opening_balance_date: date_string(&s.opening_balance.date),
        closing_balance_date: date_string(&closing.date),
        closing_available_balance_date: date_iso(&available.date),
        forward_available_balance_date: date_iso(&forward.date),
        currency: string_from(currency),
        opening_balance: s.opening_balance.amount,
        closing_balance: closing.amount,
        closing_available_balance: available.amount,
        forward_available_balance: forward.amount,
        information_to_account_owner: opt_or_empty(&s.info_to_owner),
        transactions,
    }
}

/// The JSON document of `statements`: one object per statement, in order.
pub fn json_document(statements: &[Statement]) -> (r: Vec<JsonStmt>)
    ensures
        json_stmts_v(r@) == statements_v(statements@).map_values(|s: StatementV| json_stmt_v(s)),
{
    let mut out: Vec<JsonStmt> = Vec::new();
    let mut i: usize = 0;
    while i < statements.len()
        invariant
            i <= statements@.len(),
            json_stmts_v(out@) == statements_v(statements@.take(i as int)).map_values(
                |s: StatementV| json_stmt_v(s),
            ),
        decreases statements@.len() - i,
    {
        let j = stmt_to_json(&statements[i]);
        let ghost before = out@;
        out.push(j);
        proof {
            assert(statements@.take(i + 1) =~= statements@.take(i as int).push(statements@[i as int]));
            assert(json_stmts_v(out@) =~= json_stmts_v(before).push(j@));
            assert(statements_v(statements@.take(i + 1)).map_values(|s: StatementV| json_stmt_v(s))
                =~= statements_v(statements@.take(i as int)).map_values(
                |s: StatementV| json_stmt_v(s),
            ).push(json_stmt_v(statements@[i as int]@)));
        }
        i += 1;
    }
    assert(statements@.take(statements@.len() as int) =~= statements@);
    out
}

} // verus!
