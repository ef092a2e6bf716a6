//! A complete MT940 statement block.
use vstd::prelude::*;
use crate::dates::{Date, DateV};
use crate::models::{
    opt_string_v, Balance, BalanceV, StatementNumber, StatementNumberV, Transaction, TransactionV,
    default_balance_v,
};

verus! {

/// A complete MT940 statement.
///
/// Each statement corresponds to one `:20:` block in the MT940 file.
/// A single MT940 file may contain multiple statements (each starting
/// with a `:20:` tag).
#[derive(Debug, Clone)]
pub struct Statement {
    /// :20: Transaction Reference Number (mandatory, 16c max)
    pub transaction_reference: String,
    /// :21: Related Reference (optional, 16c max)
    pub related_reference: Option<String>,
    /// :25: Account Identification (mandatory, 35x max)
    pub account_identification: String,
    /// :28C: Statement Number / Sequence Number (mandatory)
    pub statement_number: StatementNumber,
    /// :60F: or :60M: Opening Balance
    pub opening_balance: Balance,
    /// :62F: or :62M: Closing Balance
    pub closing_balance: Balance,
    /// :64: Closing Available Balance (optional)
    pub closing_available: Option<Balance>,
    /// :65: Forward Available Balance (optional)
    pub forward_available: Option<Balance>,
    /// :61: + :86: Transaction entries (optionally repeated)
    pub transactions: Vec<Transaction>,
    /// Standalone :86: Information to Account Owner (no preceding :61:)
    pub info_to_owner: Option<String>,
    /// An opening balance tag (:60F: or :60M:) was read
    pub has_opening_balance: bool,
    /// A closing balance tag (:62F: or :62M:) was read
    pub has_closing_balance: bool,
}

pub struct StatementV {
    pub transaction_reference: Seq<char>,
    pub related_reference: Option<Seq<char>>,
    pub account_identification: Seq<char>,
    pub statement_number: StatementNumberV,
    pub opening_balance: BalanceV,
    pub closing_balance: BalanceV,
    pub closing_available: Option<BalanceV>,
    pub forward_available: Option<BalanceV>,
    pub transactions: Seq<TransactionV>,
    pub info_to_owner: Option<Seq<char>>,
    pub has_opening_balance: bool,
    pub has_closing_balance: bool,
}

pub open spec fn opt_balance_v(o: Option<Balance>) -> Option<BalanceV> {
    match o {
        Some(b) => Some(b@),
        None => None,
    }
}

pub open spec fn transactions_v(v: Seq<Transaction>) -> Seq<TransactionV> {
    v.map_values(|t: Transaction| t@)
}

impl View for Statement {
    type V = StatementV;

    open spec fn view(&self) -> StatementV {
        StatementV {
            transaction_reference: self.transaction_reference@,
            related_reference: opt_string_v(self.related_reference),
            account_identification: self.account_identification@,
            statement_number: self.statement_number@,
            opening_balance: self.opening_balance@,
            closing_balance: self.closing_balance@,
            closing_available: opt_balance_v(self.closing_available),
            forward_available: opt_balance_v(self.forward_available),
            transactions: transactions_v(self.transactions@),
            info_to_owner: opt_string_v(self.info_to_owner),
            has_opening_balance: self.has_opening_balance,
            has_closing_balance: self.has_closing_balance,
        }
    }
}

/// The statement a `:20:` tag opens: only the reference is set.
pub open spec fn new_statement_v(reference: Seq<char>) -> StatementV {
    StatementV {
        transaction_reference: reference,
        related_reference: None,
        account_identification: Seq::empty(),
        statement_number: StatementNumberV { statement: Seq::empty(), sequence: None },
        opening_balance: default_balance_v(),
        closing_balance: default_balance_v(),
        closing_available: None,
        forward_available: None,
        transactions: Seq::empty(),
        info_to_owner: None,
        has_opening_balance: false,
        has_closing_balance: false,
    }
}

impl Statement {
    /// A statement with transaction reference `reference` and nothing else read yet.
    pub fn new(reference: String) -> (s: Statement)
        ensures
            s@ == new_statement_v(reference@),
    {
        let s = Statement {
            transaction_reference: reference,
            related_reference: None,
            account_identification: String::new(),
            statement_number: StatementNumber { statement: String::new(), sequence: None },
            opening_balance: Balance::default(),
            closing_balance: Balance::default(),
            closing_available: None,
            forward_available: None,
            transactions: Vec::new(),
            info_to_owner: None,
            has_opening_balance: false,
            has_closing_balance: false,
        };
        assert(transactions_v(s.transactions@) =~= Seq::<TransactionV>::empty());
        s
    }

    /// Records the opening balance.
    pub fn set_opening_balance(&mut self, b: Balance)
        ensures
            final(self)@ == (StatementV {
                opening_balance: b@,
                has_opening_balance: true,
                ..old(self)@
            }),
    {
        self.opening_balance = b;
        self.has_opening_balance = true;
    }

    /// Records the closing balance.
    pub fn set_closing_balance(&mut self, b: Balance)
        ensures
            final(self)@ == (StatementV {
                closing_balance: b@,
                has_closing_balance: true,
                ..old(self)@
            }),
    {
        self.closing_balance = b;
        self.has_closing_balance = true;
    }

    /// Returns the statement currency (inherited from opening balance).
    pub fn currency(&self) -> (r: &str)
        ensures
            r@ == self.opening_balance.currency@,
    {
        self.opening_balance.currency.as_str()
    }

    /// Returns the statement date (from the closing balance).
    pub fn statement_date(&self) -> (d: Date)
        ensures
            d@ == self.closing_balance.date@,
    {
        self.closing_balance.date
    }
}

} // verus!
