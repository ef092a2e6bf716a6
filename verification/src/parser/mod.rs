//! The MT940 parser: tokenizer, tag field parsers and the statement FSM.
//!
//! The FSM reads the tags in order. `Start` waits for `:20:`, which opens a
//! statement; `Header` reads `:21:`, `:25:`, `:28C:` and, with the opening
//! balance, moves to `Body`; `Body` reads `:61:`/`:86:` pairs and, with the
//! closing balance, moves to `Footer`; `Footer` reads the available balances
//! and the owner information until the next `:20:`, where the statement is
//! checked and kept.
pub mod tokenizer;
pub mod fields;
pub mod transaction;

use vstd::prelude::*;
use crate::decoders::{chain_decode, DecoderChain, DecoderKind};
use crate::error::{ParseError, ParseErrorV};
use crate::models::{Transaction, TransactionV};
use crate::statement::{new_statement_v, transactions_v, Statement, StatementV};
use crate::text::{str_is, string_from};
use self::fields::{
    balance_outcome, parse_balance_checked, parse_statement_number, statement_number_v, Outcome,
};
use self::tokenizer::{tag_lines_v, tokenize, tokenize_lines, TagLineV};
use self::transaction::{parse_transaction, transaction_outcome};

verus! {

/// Where the FSM stands in the statement being read.
#[derive(Debug, Clone, Copy, PartialEq, Eq, Structural)]
pub enum State {
    Start,
    Header,
    Body,
    Footer,
}

/// All mutable state of the FSM, so that each tag handler takes one `&mut`.
pub struct ParserState {
    /// The statement being read.
    pub current: Option<Statement>,
    /// Transactions of the current statement, completed so far.
    pub transactions: Vec<Transaction>,
    /// The transaction whose `:86:` may still follow.
    pub current_tx: Option<Transaction>,
    pub state: State,
}

pub struct ParserStateV {
    pub current: Option<StatementV>,
    pub transactions: Seq<TransactionV>,
    pub current_tx: Option<TransactionV>,
    pub state: State,
}

pub open spec fn opt_statement_v(o: Option<Statement>) -> Option<StatementV> {
    match o {
        Some(s) => Some(s@),
        None => None,
    }
}

pub open spec fn opt_transaction_v(o: Option<Transaction>) -> Option<TransactionV> {
    match o {
        Some(t) => Some(t@),
        None => None,
    }
}

impl View for ParserState {
    type V = ParserStateV;

    open spec fn view(&self) -> ParserStateV {
        ParserStateV {
            current: opt_statement_v(self.current),
            transactions: transactions_v(self.transactions@),
            current_tx: opt_transaction_v(self.current_tx),
            state: self.state,
        }
    }
}

/// The state before the first tag.
pub open spec fn initial_state_v() -> ParserStateV {
    ParserStateV {
        current: None,
        transactions: Seq::empty(),
        current_tx: None,
        state: State::Start,
    }
}

impl Default for ParserState {
    fn default() -> (ps: ParserState)
        ensures
            ps@ == initial_state_v(),
    {
        let ps = ParserState {
            current: None,
            transactions: Vec::new(),
            current_tx: None,
            state: State::Start,
        };
        assert(transactions_v(ps.transactions@) =~= Seq::<TransactionV>::empty());
        ps
    }
}

/// What handling one tag does to the state: the next state, an error (with
/// the state as far as it was changed), or a panic.
pub enum StepV {
    Continue(ParserStateV),
    Stop(ParserStateV, ParseErrorV),
    Panics,
}

/// The pending transaction, if any, moved to the completed ones.
pub open spec fn push_tx(ps: ParserStateV) -> ParserStateV {
    match ps.current_tx {
        Some(t) => ParserStateV {
            transactions: ps.transactions.push(t),
            current_tx: None,
            ..ps
        },
        None => ps,
    }
}

/// `ps` with the current statement changed by `f`, when there is one.
pub open spec fn update_current(ps: ParserStateV, f: spec_fn(StatementV) -> StatementV) -> ParserStateV {
    match ps.current {
        Some(s) => ParserStateV { current: Some(f(s)), ..ps },
        None => ps,
    }
}

/// A balance tag of the current statement: `set` records the balance; an
/// error or panic of the balance parser ends the step (with `ps`).
pub open spec fn balance_step(
    ps: ParserStateV,
    val: Seq<char>,
    is_intermediate: bool,
    set: spec_fn(StatementV, crate::models::BalanceV) -> StatementV,
) -> StepV {
    match ps.current {
        Some(s) => match balance_outcome(val, is_intermediate) {
            Outcome::Done(b) => StepV::Continue(ParserStateV { current: Some(set(s, b)), ..ps }),
            Outcome::Failed(e) => StepV::Stop(ps, e),
            Outcome::Panics => StepV::Panics,
        },
        None => StepV::Continue(ps),
    }
}

/// A tag in the `Header` state.
pub open spec fn header_step(tag: Seq<char>, val: Seq<char>, ps: ParserStateV) -> StepV {
    if tag == ":21:"@ {
        StepV::Continue(
            update_current(ps, |s: StatementV| StatementV { related_reference: Some(val), ..s }),
        )
    } else if tag == ":25:"@ {
        StepV::Continue(
            update_current(ps, |s: StatementV| StatementV { account_identification: val, ..s }),
        )
    } else if tag == ":28C:"@ {
        StepV::Continue(
            update_current(
                ps,
                |s: StatementV| StatementV { statement_number: statement_number_v(val), ..s },
            ),
        )
    } else if tag == ":60F:"@ || tag == ":60M:"@ {
        match balance_step(
            ps,
            val,
            tag == ":60M:"@,
            |s: StatementV, b: crate::models::BalanceV|
                StatementV { opening_balance: b, has_opening_balance: true, ..s },
        ) {
            StepV::Continue(p) => StepV::Continue(ParserStateV { state: State::Body, ..push_tx(p) }),
            other => other,
        }
    } else {
        StepV::Continue(ps)
    }
}

/// A tag in the `Body` state, with the decoders `ks` for `:86:`.
pub open spec fn body_step(
    tag: Seq<char>,
    val: Seq<char>,
    ks: Seq<DecoderKind>,
    ps: ParserStateV,
) -> StepV {
    if tag == ":61:"@ {
        let p = push_tx(ps);
        match transaction_outcome(val) {
            Ok(t) => StepV::Continue(ParserStateV { current_tx: Some(t), ..p }),
            Err(e) => StepV::Stop(p, e),
        }
    } else if tag == ":86:"@ {
        match ps.current_tx {
            Some(t) => StepV::Continue(
                ParserStateV {
                    current_tx: Some(
                        TransactionV {
                            details: val,
                            structured_details: Some(chain_decode(ks, val)),
                            ..t
                        },
                    ),
                    ..ps
                },
            ),
            None => StepV::Continue(ps),
        }
    } else if tag == ":62F:"@ || tag == ":62M:"@ {
        let p = push_tx(ps);
        match balance_step(
            p,
            val,
            tag == ":62M:"@,
            |s: StatementV, b: crate::models::BalanceV|
                StatementV {
                    closing_balance: b,
                    has_closing_balance: true,
                    transactions: p.transactions,
                    ..s
                },
        ) {
            StepV::Continue(q) => StepV::Continue(
                ParserStateV {
                    transactions: if q.current is Some {
                        Seq::empty()
                    } else {
                        q.transactions
                    },
                    state: State::Footer,
                    ..q
                },
            ),
            other => other,
        }
    } else {
        StepV::Continue(ps)
    }
}

/// A tag other than `:20:` in the `Footer` state.
pub open spec fn footer_step(tag: Seq<char>, val: Seq<char>, ps: ParserStateV) -> StepV {
    if tag == ":64:"@ {
        balance_step(
            ps,
            val,
            false,
            |s: StatementV, b: crate::models::BalanceV| StatementV { closing_available: Some(b), ..s },
        )
    } else if tag == ":65:"@ {
        balance_step(
            ps,
            val,
            false,
            |s: StatementV, b: crate::models::BalanceV| StatementV { forward_available: Some(b), ..s },
        )
    } else if tag == ":86:"@ {
        StepV::Continue(
            update_current(ps, |s: StatementV| StatementV { info_to_owner: Some(val), ..s }),
        )
    } else {
        StepV::Continue(ps)
    }
}

/// The transactions the state holds: the completed ones and the pending one.
pub open spec fn tx_count(ps: ParserStateV) -> int {
    ps.transactions.len() + if ps.current_tx is Some {
        1int
    } else {
        0int
    }
}

/// No transaction is dropped or duplicated in the body of a statement: a
/// `:61:` adds exactly one (neither it nor a `:86:` ever panics), a closing
/// balance moves all of them, in order, into the statement, and every other
/// tag keeps their number and leaves the statement as it is. The closing
/// balance is intermediate exactly when its tag is `:62M:`, and it leaves
/// the opening balance as it is.
pub proof fn law_body_keeps_transactions(
    tag: Seq<char>,
    val: Seq<char>,
    ks: Seq<DecoderKind>,
    ps: ParserStateV,
)
    requires
        ps.current is Some,
    ensures
        tag == ":61:"@ || tag == ":86:"@ ==> !(body_step(tag, val, ks, ps) is Panics),
        match body_step(tag, val, ks, ps) {
            StepV::Continue(q) => if tag == ":61:"@ {
                tx_count(q) == tx_count(ps) + 1
            } else if tag == ":62F:"@ || tag == ":62M:"@ {
                &&& q.current is Some
                &&& q.current->0.transactions == push_tx(ps).transactions
                &&& q.current->0.transactions.len() == tx_count(ps)
                &&& tx_count(q) == 0
                &&& q.state == State::Footer
                &&& q.current->0.closing_balance.is_intermediate == (tag == ":62M:"@)
                &&& q.current->0.opening_balance == ps.current->0.opening_balance
            } else {
                &&& tx_count(q) == tx_count(ps)
                &&& q.current == ps.current
            },
            _ => true,
        },
{
    reveal_strlit(":61:");
    reveal_strlit(":86:");
    reveal_strlit(":62F:");
    reveal_strlit(":62M:");
    assert(":86:"@ != ":62F:"@ && ":86:"@ != ":62M:"@) by {
        assert(":86:"@.len() != ":62F:"@.len());
        assert(":86:"@.len() != ":62M:"@.len());
    }
}

/// `r` (and the state `after`) is what the step `st` comes to.
pub open spec fn step_result(st: StepV, r: Option<Result<(), ParseError>>, after: ParserStateV) -> bool {
    match st {
        StepV::Continue(p) => r == Some(Ok::<(), ParseError>(())) && after == p,
        StepV::Stop(p, e) => (r matches Some(Err(x)) && x@ == e) && after == p,
        StepV::Panics => r is None,
    }
}

/// The amount of `t` is not negative (the sign lies in the debit/credit mark).
pub open spec fn tx_nonneg(t: TransactionV) -> bool {
    !t.amount.negative
}

pub open spec fn txs_nonneg(ts: Seq<TransactionV>) -> bool {
    forall|i: int| 0 <= i < ts.len() ==> tx_nonneg(#[trigger] ts[i])
}

pub open spec fn stmts_nonneg(ss: Seq<StatementV>) -> bool {
    forall|i: int| 0 <= i < ss.len() ==> txs_nonneg(#[trigger] ss[i].transactions)
}

/// No transaction held in the FSM state has a negative amount.
pub open spec fn state_nonneg(ps: ParserStateV) -> bool {
    &&& txs_nonneg(ps.transactions)
    &&& ps.current_tx matches Some(t) ==> tx_nonneg(t)
    &&& ps.current matches Some(s) ==> txs_nonneg(s.transactions)
}

/// Moves the pending transaction, if any, to the completed ones.
fn push_pending(ps: &mut ParserState)
    ensures
        final(ps)@ == push_tx(old(ps)@),
        state_nonneg(old(ps)@) ==> state_nonneg(final(ps)@),
{
    match ps.current_tx.take() {
        Some(t) => {
            let ghost before = ps.transactions@;
            ps.transactions.push(t);
            assert(transactions_v(ps.transactions@) =~= transactions_v(before).push(t@));
        },
        None => {},
    }
}

/// `handle_header_tag`, or `None` where it panics.
fn header_checked(tag: &str, val: &str, ps: &mut ParserState) -> (r: Option<Result<(), ParseError>>)
    ensures
        state_nonneg(old(ps)@) && r == Some(Ok::<(), ParseError>(())) ==> state_nonneg(final(ps)@),
        step_result(header_step(tag@, val@, old(ps)@), r, final(ps)@),
{
    if str_is(tag, ":21:") {
        if let Some(mut s) = ps.current.take() {
            s.related_reference = Some(string_from(val));
            ps.current = Some(s);
        }
        Some(Ok(()))
    } else if str_is(tag, ":25:") {
        if let Some(mut s) = ps.current.take() {
            s.account_identification = string_from(val);
            ps.current = Some(s);
        }
        Some(Ok(()))
    } else if str_is(tag, ":28C:") {
        if let Some(mut s) = ps.current.take() {
            s.statement_number = parse_statement_number(val);
            ps.current = Some(s);
        }
        Some(Ok(()))
    } else if str_is(tag, ":60F:") || str_is(tag, ":60M:") {
        let is_intermediate = str_is(tag, ":60M:");
        if let Some(mut s) = ps.current.take() {
            match parse_balance_checked(val, is_intermediate) {
                None => {
                    return None;
                },
                Some(Err(e)) => {
                    ps.current = Some(s);
                    return Some(Err(e));
                },
                Some(Ok(b)) => {
                    s.set_opening_balance(b);
                    ps.current = Some(s);
                },
            }
        }
        push_pending(ps);
        ps.state = State::Body;
        Some(Ok(()))
    } else {
        Some(Ok(()))
    }
}

/// `handle_body_tag`, or `None` where it panics.
fn body_checked(tag: &str, val: &str, chain: &DecoderChain, ps: &mut ParserState) -> (r: Option<
    Result<(), ParseError>,
>)
    ensures
        step_result(body_step(tag@, val@, chain@, old(ps)@), r, final(ps)@),
        state_nonneg(old(ps)@) && r == Some(Ok::<(), ParseError>(())) ==> state_nonneg(final(ps)@),
{
    if str_is(tag, ":61:") {
        push_pending(ps);
        match parse_transaction(val) {
            Ok(t) => {
                ps.current_tx = Some(t);
                Some(Ok(()))
            },
            Err(e) => Some(Err(e)),
        }
    } else if str_is(tag, ":86:") {
        let sd = chain.decode(val);
        if let Some(mut t) = ps.current_tx.take() {
            t.details = string_from(val);
            t.structured_details = Some(sd);
            ps.current_tx = Some(t);
        }
        Some(Ok(()))
    } else if str_is(tag, ":62F:") || str_is(tag, ":62M:") {
        push_pending(ps);
        let is_intermediate = str_is(tag, ":62M:");
        if let Some(mut s) = ps.current.take() {
            match parse_balance_checked(val, is_intermediate) {
                None => {
                    return None;
                },
                Some(Err(e)) => {
                    ps.current = Some(s);
                    return Some(Err(e));
                },
                Some(Ok(b)) => {
                    s.set_closing_balance(b);
                    let mut txs: Vec<Transaction> = Vec::new();
                    std::mem::swap(&mut txs, &mut ps.transactions);
                    s.transactions = txs;
                    ps.current = Some(s);
                    assert(transactions_v(ps.transactions@) =~= Seq::<TransactionV>::empty());
                },
            }
        }
        ps.state = State::Footer;
        Some(Ok(()))
    } else {
        Some(Ok(()))
    }
}

/// `handle_footer_tag`, or `None` where it panics.
fn footer_checked(tag: &str, val: &str, ps: &mut ParserState) -> (r: Option<Result<(), ParseError>>)
    ensures
        state_nonneg(old(ps)@) && r == Some(Ok::<(), ParseError>(())) ==> state_nonneg(final(ps)@),
        step_result(footer_step(tag@, val@, old(ps)@), r, final(ps)@),
{
    if str_is(tag, ":64:") || str_is(tag, ":65:") {
        let is_64 = str_is(tag, ":64:");
        if let Some(mut s) = ps.current.take() {
            match parse_balance_checked(val, false) {
                None => {
                    return None;
                },
                Some(Err(e)) => {
                    ps.current = Some(s);
                    return Some(Err(e));
                },
                Some(Ok(b)) => {
                    if is_64 {
                        s.closing_available = Some(b);
                    } else {
                        s.forward_available = Some(b);
                    }
                    ps.current = Some(s);
                },
            }
        }
        Some(Ok(()))
    } else if str_is(tag, ":86:") {
        if let Some(mut s) = ps.current.take() {
            s.info_to_owner = Some(string_from(val));
            ps.current = Some(s);
        }
        Some(Ok(()))
    } else {
        Some(Ok(()))
    }
}

/// Handles a tag in the `Header` state: `:21:`, `:25:`, `:28C:` fill the
/// statement; `:60F:`/`:60M:` record the opening balance and move to `Body`.
pub fn handle_header_tag(tag: &str, val: &str, ps: &mut ParserState) -> (r: Result<(), ParseError>)
    requires
        !(header_step(tag@, val@, old(ps)@) is Panics),
    ensures
        step_result(header_step(tag@, val@, old(ps)@), Some(r), final(ps)@),
{
    match header_checked(tag, val, ps) {
        Some(r) => r,
        None => Ok(()),
    }
}

/// Handles a tag in the `Body` state: `:61:` starts a transaction, `:86:`
/// gives it its details, `:62F:`/`:62M:` record the closing balance, attach
/// the transactions and move to `Footer`.
pub fn handle_body_tag(tag: &str, val: &str, chain: &DecoderChain, ps: &mut ParserState) -> (r:
    Result<(), ParseError>)
    requires
        !(body_step(tag@, val@, chain@, old(ps)@) is Panics),
    ensures
        step_result(body_step(tag@, val@, chain@, old(ps)@), Some(r), final(ps)@),
{
    match body_checked(tag, val, chain, ps) {
        Some(r) => r,
        None => Ok(()),
    }
}

/// Handles a tag in the `Footer` state: `:64:` and `:65:` record the
/// available balances, `:86:` the information to the account owner.
pub fn handle_footer_tag(tag: &str, val: &str, ps: &mut ParserState) -> (r: Result<(), ParseError>)
    requires
        !(footer_step(tag@, val@, old(ps)@) is Panics),
    ensures
        step_result(footer_step(tag@, val@, old(ps)@), Some(r), final(ps)@),
{
    match footer_checked(tag, val, ps) {
        Some(r) => r,
        None => Ok(()),
    }
}

// ---------------------------------------------------------------------------
// Statements and the whole input
// ---------------------------------------------------------------------------

/// The first mandatory part a statement lacks, as an error: `:25:`,
/// `:28C:`, the opening balance, the closing balance, in that order.
pub open spec fn validate_v(s: StatementV) -> Option<ParseErrorV> {
    let missing = |tag: Seq<char>|
        Some(ParseErrorV::MissingTag { tag, context: s.transaction_reference });
    if s.account_identification.len() == 0 {
        missing(":25:"@)
    } else if s.statement_number.statement.len() == 0 {
        missing(":28C:"@)
    } else if !s.has_opening_balance {
        missing(":60F:"@)
    } else if !s.has_closing_balance {
        missing(":62F:"@)
    } else {
        None
    }
}

/// Checks that a statement has all its mandatory tags.
pub fn validate_statement(stmt: &Statement) -> (r: Result<(), ParseError>)
    ensures
        match validate_v(stmt@) {
            Some(e) => r matches Err(x) && x@ == e,
            None => r is Ok,
        },
{
    let context = string_from(stmt.transaction_reference.as_str());
    if stmt.account_identification.as_str().is_empty() {
        Err(ParseError::MissingTag { tag: ":25:", context })
    } else if stmt.statement_number.statement.as_str().is_empty() {
        Err(ParseError::MissingTag { tag: ":28C:", context })
    } else if !stmt.has_opening_balance {
        Err(ParseError::MissingTag { tag: ":60F:", context })
    } else if !stmt.has_closing_balance {
        Err(ParseError::MissingTag { tag: ":62F:", context })
    } else {
        Ok(())
    }
}

/// Every statement has all its mandatory tags.
pub open spec fn stmts_valid(ss: Seq<StatementV>) -> bool {
    forall|i: int| 0 <= i < ss.len() ==> validate_v(#[trigger] ss[i]) is None
}

pub open spec fn statements_v(v: Seq<Statement>) -> Seq<StatementV> {
    v.map_values(|s: Statement| s@)
}

/// The FSM state with the statements completed so far.
pub struct RunV {
    pub ps: ParserStateV,
    pub stmts: Seq<StatementV>,
}

/// Ends the current statement: it is checked and kept.
pub open spec fn finalize_v(r: RunV) -> Outcome<RunV> {
    match r.ps.current {
        Some(s) => match validate_v(s) {
            Some(e) => Outcome::Failed(e),
            None => Outcome::Done(
                RunV { ps: ParserStateV { current: None, ..r.ps }, stmts: r.stmts.push(s) },
            ),
        },
        None => Outcome::Done(r),
    }
}

/// `:20:` opens a new statement with reference `val`.
pub open spec fn open_statement_v(r: RunV, val: Seq<char>) -> RunV {
    RunV {
        ps: ParserStateV {
            current: Some(new_statement_v(val)),
            transactions: Seq::empty(),
            state: State::Header,
            ..r.ps
        },
        ..r
    }
}

pub open spec fn lift_step(r: RunV, st: StepV) -> Outcome<RunV> {
    match st {
        StepV::Continue(ps) => Outcome::Done(RunV { ps, ..r }),
        StepV::Stop(_, e) => Outcome::Failed(e),
        StepV::Panics => Outcome::Panics,
    }
}

/// One tag through the FSM.
#[verifier::opaque]
pub open spec fn fsm_step(r: RunV, line: TagLineV, ks: Seq<DecoderKind>) -> Outcome<RunV> {
    match r.ps.state {
        State::Start => if line.tag == ":20:"@ {
            Outcome::Done(open_statement_v(r, line.value))
        } else {
            Outcome::Done(r)
        },
        State::Header => lift_step(r, header_step(line.tag, line.value, r.ps)),
        State::Body => lift_step(r, body_step(line.tag, line.value, ks, r.ps)),
        State::Footer => if line.tag == ":20:"@ {
            match finalize_v(r) {
                Outcome::Done(r2) => Outcome::Done(open_statement_v(r2, line.value)),
                other => other,
            }
        } else {
            lift_step(r, footer_step(line.tag, line.value, r.ps))
        },
    }
}

/// The first `n` tags through the FSM.
pub open spec fn run_fold(lines: Seq<TagLineV>, ks: Seq<DecoderKind>, n: int) -> Outcome<RunV>
    decreases n,
{
    if n <= 0 {
        Outcome::Done(RunV { ps: initial_state_v(), stmts: Seq::empty() })
    } else {
        match run_fold(lines, ks, n - 1) {
            Outcome::Done(r) => fsm_step(r, lines[n - 1], ks),
            other => other,
        }
    }
}

/// `lines` through the FSM from `r`.
pub open spec fn run_from(r: RunV, lines: Seq<TagLineV>, ks: Seq<DecoderKind>) -> Outcome<RunV>
    decreases lines.len(),
{
    if lines.len() == 0 {
        Outcome::Done(r)
    } else {
        match run_from(r, lines.drop_last(), ks) {
            Outcome::Done(r2) => fsm_step(r2, lines.last(), ks),
            other => other,
        }
    }
}

/// The number of lines with tag `tag`.
pub open spec fn count_tag(lines: Seq<TagLineV>, tag: Seq<char>) -> nat
    decreases lines.len(),
{
    if lines.len() == 0 {
        0
    } else {
        count_tag(lines.drop_last(), tag) + if lines.last().tag == tag {
            1nat
        } else {
            0nat
        }
    }
}

/// Reading the first `n` tags of the input is reading them from the
/// initial state.
pub proof fn lemma_run_fold_from(lines: Seq<TagLineV>, ks: Seq<DecoderKind>, n: int)
    requires
        0 <= n <= lines.len(),
    ensures
        run_fold(lines, ks, n) == run_from(
            RunV { ps: initial_state_v(), stmts: Seq::empty() },
            lines.take(n),
            ks,
        ),
    decreases n,
{
    if n > 0 {
        lemma_run_fold_from(lines, ks, n - 1);
        assert(lines.take(n).drop_last() =~= lines.take(n - 1));
    }
}

/// Parsing never drops a transaction: in the body of a statement, up to its
/// closing balance, each `:61:` adds one transaction to the statement being
/// read and no other tag removes one (the closing balance then moves them
/// all into the statement, see `law_body_keeps_transactions`).
pub proof fn law_body_run_keeps_transactions(r: RunV, lines: Seq<TagLineV>, ks: Seq<DecoderKind>)
    requires
        r.ps.state == State::Body,
        r.ps.current is Some,
        forall|i: int|
            0 <= i < lines.len() ==> #[trigger] lines[i].tag != ":62F:"@ && lines[i].tag
                != ":62M:"@,
    ensures
        run_from(r, lines, ks) matches Outcome::Done(r2) ==> {
            &&& r2.ps.state == State::Body
            &&& r2.ps.current is Some
            &&& r2.stmts == r.stmts
            &&& tx_count(r2.ps) == tx_count(r.ps) + count_tag(lines, ":61:"@)
            &&& r2.ps.current == r.ps.current
        },
    decreases lines.len(),
{
    if lines.len() > 0 {
        let init = lines.drop_last();
        assert forall|i: int| 0 <= i < init.len() implies #[trigger] init[i].tag != ":62F:"@
            && init[i].tag != ":62M:"@ by {
            assert(init[i] == lines[i]);
        }
        law_body_run_keeps_transactions(r, init, ks);
        match run_from(r, init, ks) {
            Outcome::Done(r1) => {
                let line = lines.last();
                assert(line == lines[lines.len() - 1]);
                reveal(fsm_step);
                law_body_keeps_transactions(line.tag, line.value, ks, r1.ps);
                reveal_strlit(":61:");
                reveal_strlit(":86:");
                reveal_strlit(":62F:");
                reveal_strlit(":62M:");
                assert(":61:"@[1] != ":86:"@[1]);
            },
            _ => {},
        }
    }
}

/// Reading `a + b` is reading `a`, then `b`.
proof fn lemma_run_from_append(r: RunV, a: Seq<TagLineV>, b: Seq<TagLineV>, ks: Seq<DecoderKind>)
    ensures
        run_from(r, a + b, ks) == match run_from(r, a, ks) {
            Outcome::Done(r1) => run_from(r1, b, ks),
            other => other,
        },
    decreases b.len(),
{
    if b.len() == 0 {
        assert(a + b =~= a);
    } else {
        lemma_run_from_append(r, a, b.drop_last(), ks);
        assert((a + b).drop_last() =~= a + b.drop_last());
        assert((a + b).last() == b.last());
    }
}

/// Header tags other than the opening balance keep the statement open and
/// hold no transaction.
proof fn lemma_header_run(r: RunV, lines: Seq<TagLineV>, ks: Seq<DecoderKind>)
    requires
        r.ps.state == State::Header,
        r.ps.current is Some,
        r.ps.current_tx is None,
        r.ps.transactions.len() == 0,
        forall|i: int|
            0 <= i < lines.len() ==> #[trigger] lines[i].tag != ":60F:"@ && lines[i].tag
                != ":60M:"@,
    ensures
        run_from(r, lines, ks) matches Outcome::Done(r2) ==> {
            &&& r2.ps.state == State::Header
            &&& r2.ps.current is Some
            &&& r2.ps.current_tx is None
            &&& r2.ps.transactions.len() == 0
            &&& r2.stmts == r.stmts
        },
    decreases lines.len(),
{
    if lines.len() > 0 {
        let init = lines.drop_last();
        assert forall|i: int| 0 <= i < init.len() implies #[trigger] init[i].tag != ":60F:"@
            && init[i].tag != ":60M:"@ by {
            assert(init[i] == lines[i]);
        }
        lemma_header_run(r, init, ks);
        assert(lines.last() == lines[lines.len() - 1]);
        reveal(fsm_step);
    }
}

/// Footer tags other than `:20:` keep the statement and its transactions.
proof fn lemma_footer_run(r: RunV, lines: Seq<TagLineV>, ks: Seq<DecoderKind>)
    requires
        r.ps.state == State::Footer,
        r.ps.current is Some,
        forall|i: int| 0 <= i < lines.len() ==> #[trigger] lines[i].tag != ":20:"@,
    ensures
        run_from(r, lines, ks) matches Outcome::Done(r2) ==> {
            &&& r2.ps.state == State::Footer
            &&& r2.ps.current is Some
            &&& r2.ps.current->0.transactions == r.ps.current->0.transactions
            &&& r2.ps.current->0.opening_balance == r.ps.current->0.opening_balance
            &&& r2.ps.current->0.closing_balance == r.ps.current->0.closing_balance
            &&& r2.stmts == r.stmts
        },
    decreases lines.len(),
{
    if lines.len() > 0 {
        let init = lines.drop_last();
        assert forall|i: int| 0 <= i < init.len() implies #[trigger] init[i].tag != ":20:"@ by {
            assert(init[i] == lines[i]);
        }
        lemma_footer_run(r, init, ks);
        assert(lines.last() == lines[lines.len() - 1]);
        reveal(fsm_step);
    }
}

/// Reading one tag is one step.
proof fn lemma_run_from_one(r: RunV, line: TagLineV, ks: Seq<DecoderKind>)
    ensures
        run_from(r, seq![line], ks) == fsm_step(r, line, ks),
{
    let l = seq![line];
    assert(l.drop_last() =~= Seq::<TagLineV>::empty());
    assert(run_from(r, Seq::<TagLineV>::empty(), ks) == Outcome::<RunV>::Done(r));
    assert(l.last() == line);
}

/// From a freshly opened statement, the header tags and the opening balance
/// lead to the body with no transaction yet.
proof fn lemma_header_to_body(
    r: RunV,
    head: Seq<TagLineV>,
    opening: TagLineV,
    ks: Seq<DecoderKind>,
)
    requires
        r.ps.state == State::Header,
        r.ps.current is Some,
        r.ps.current_tx is None,
        r.ps.transactions.len() == 0,
        forall|i: int|
            0 <= i < head.len() ==> #[trigger] head[i].tag != ":60F:"@ && head[i].tag != ":60M:"@,
        opening.tag == ":60F:"@ || opening.tag == ":60M:"@,
    ensures
        run_from(r, head + seq![opening], ks) matches Outcome::Done(r3) ==> {
            &&& r3.ps.state == State::Body
            &&& r3.ps.current is Some
            &&& tx_count(r3.ps) == 0
            &&& r3.stmts == r.stmts
            &&& r3.ps.current->0.opening_balance.is_intermediate == (opening.tag == ":60M:"@)
            &&& balance_outcome(opening.value, opening.tag == ":60M:"@) == Outcome::Done(
                r3.ps.current->0.opening_balance,
            )
        },
{
    lemma_run_from_append(r, head, seq![opening], ks);
    lemma_header_run(r, head, ks);
    if let Outcome::Done(r2) = run_from(r, head, ks) {
        lemma_run_from_one(r2, opening, ks);
        reveal(fsm_step);
        reveal_strlit(":21:");
        reveal_strlit(":25:");
        reveal_strlit(":28C:");
        reveal_strlit(":60F:");
        reveal_strlit(":60M:");
        assert(opening.tag != ":21:"@ && opening.tag != ":25:"@ && opening.tag != ":28C:"@) by {
            assert(":60F:"@[1] != ":21:"@[1] && ":60M:"@[1] != ":21:"@[1]);
            assert(":60F:"@[1] != ":25:"@[1] && ":60M:"@[1] != ":25:"@[1]);
            assert(":60F:"@[1] != ":28C:"@[1] && ":60M:"@[1] != ":28C:"@[1]);
        }
    }
}

/// From the body, the body tags and the closing balance lead to the footer
/// with every transaction in the statement.
proof fn lemma_body_to_footer(r: RunV, body: Seq<TagLineV>, closing: TagLineV, ks: Seq<DecoderKind>)
    requires
        r.ps.state == State::Body,
        r.ps.current is Some,
        forall|i: int|
            0 <= i < body.len() ==> #[trigger] body[i].tag != ":62F:"@ && body[i].tag != ":62M:"@,
        closing.tag == ":62F:"@ || closing.tag == ":62M:"@,
    ensures
        run_from(r, body + seq![closing], ks) matches Outcome::Done(r5) ==> {
            &&& r5.ps.state == State::Footer
            &&& r5.ps.current is Some
            &&& r5.ps.current->0.transactions.len() == tx_count(r.ps) + count_tag(body, ":61:"@)
            &&& r5.stmts == r.stmts
            &&& r5.ps.current->0.opening_balance == r.ps.current->0.opening_balance
            &&& r5.ps.current->0.closing_balance.is_intermediate == (closing.tag == ":62M:"@)
            &&& balance_outcome(closing.value, closing.tag == ":62M:"@) == Outcome::Done(
                r5.ps.current->0.closing_balance,
            )
        },
{
    lemma_run_from_append(r, body, seq![closing], ks);
    law_body_run_keeps_transactions(r, body, ks);
    if let Outcome::Done(r4) = run_from(r, body, ks) {
        lemma_run_from_one(r4, closing, ks);
        reveal(fsm_step);
        law_body_keeps_transactions(closing.tag, closing.value, ks, r4.ps);
        reveal_strlit(":61:");
        reveal_strlit(":62F:");
        reveal_strlit(":62M:");
        assert(closing.tag != ":61:"@) by {
            assert(":62F:"@[2] != ":61:"@[2] && ":62M:"@[2] != ":61:"@[2]);
        }
    }
}

/// Parsing never drops or duplicates a transaction: an input whose tags are
/// one statement (`:20:`, header tags, the opening balance, the body, the
/// closing balance, footer tags) parses, if it parses, into that one
/// statement with exactly one transaction per `:61:` of its body. Its
/// opening balance is the one read from the opening tag's value,
/// intermediate exactly when tagged `:60M:` (final for `:60F:`); its closing
/// balance is the one read from the closing tag's value, intermediate
/// exactly when tagged `:62M:` (final for `:62F:`).
pub proof fn law_statement_keeps_every_transaction(
    input: Seq<char>,
    ks: Seq<DecoderKind>,
    open: TagLineV,
    head: Seq<TagLineV>,
    opening: TagLineV,
    body: Seq<TagLineV>,
    closing: TagLineV,
    foot: Seq<TagLineV>,
)
    requires
        tokenize(input) == seq![open] + head + seq![opening] + body + seq![closing] + foot,
        open.tag == ":20:"@,
        forall|i: int|
            0 <= i < head.len() ==> #[trigger] head[i].tag != ":60F:"@ && head[i].tag != ":60M:"@,
        opening.tag == ":60F:"@ || opening.tag == ":60M:"@,
        forall|i: int|
            0 <= i < body.len() ==> #[trigger] body[i].tag != ":62F:"@ && body[i].tag != ":62M:"@,
        closing.tag == ":62F:"@ || closing.tag == ":62M:"@,
        forall|i: int| 0 <= i < foot.len() ==> #[trigger] foot[i].tag != ":20:"@,
    ensures
        parse_outcome(input, ks) matches Outcome::Done(ss) ==> {
            &&& ss.len() == 1
            &&& ss[0].transactions.len() == count_tag(body, ":61:"@)
            &&& ss[0].opening_balance.is_intermediate == (opening.tag == ":60M:"@)
            &&& ss[0].closing_balance.is_intermediate == (closing.tag == ":62M:"@)
            &&& balance_outcome(opening.value, opening.tag == ":60M:"@) == Outcome::Done(
                ss[0].opening_balance,
            )
            &&& balance_outcome(closing.value, closing.tag == ":62M:"@) == Outcome::Done(
                ss[0].closing_balance,
            )
        },
{
    let lines = tokenize(input);
    let init = RunV { ps: initial_state_v(), stmts: Seq::empty() };
    let n = lines.len() as int;
    lemma_run_fold_from(lines, ks, n);
    assert(lines.take(n) =~= lines);
    let mid = head + seq![opening];
    let end = body + seq![closing];
    assert(lines =~= seq![open] + mid + end + foot);
    lemma_run_from_append(init, seq![open] + mid + end, foot, ks);
    lemma_run_from_append(init, seq![open] + mid, end, ks);
    lemma_run_from_append(init, seq![open], mid, ks);
    lemma_run_from_one(init, open, ks);
    assert(fsm_step(init, open, ks) == Outcome::Done(open_statement_v(init, open.value))) by {
        reveal(fsm_step);
    }
    let r1 = open_statement_v(init, open.value);
    lemma_header_to_body(r1, head, opening, ks);
    if let Outcome::Done(r3) = run_from(r1, mid, ks) {
        lemma_body_to_footer(r3, body, closing, ks);
        if let Outcome::Done(r5) = run_from(r3, end, ks) {
            lemma_footer_run(r5, foot, ks);
        }
    }
}

/// What parsing `input` with the decoders `ks` comes to: the statements, the
/// first error, or a panic. Input without tags, or without any statement,
/// is `EmptyInput`.
pub open spec fn parse_outcome(input: Seq<char>, ks: Seq<DecoderKind>) -> Outcome<Seq<StatementV>> {
    let lines = tokenize(input);
    if lines.len() == 0 {
        Outcome::Failed(ParseErrorV::EmptyInput)
    } else {
        match run_fold(lines, ks, lines.len() as int) {
            Outcome::Done(r) => match finalize_v(r) {
                Outcome::Done(r2) => if r2.stmts.len() == 0 {
                    Outcome::Failed(ParseErrorV::EmptyInput)
                } else {
                    Outcome::Done(r2.stmts)
                },
                Outcome::Failed(e) => Outcome::Failed(e),
                Outcome::Panics => Outcome::Panics,
            },
            Outcome::Failed(e) => Outcome::Failed(e),
            Outcome::Panics => Outcome::Panics,
        }
    }
}

/// `r` is what the outcome `o` of a parse comes to.
pub open spec fn parse_result(o: Outcome<Seq<StatementV>>, r: Result<Vec<Statement>, ParseError>) -> bool {
    match o {
        Outcome::Done(ss) => r matches Ok(v) && statements_v(v@) == ss,
        Outcome::Failed(e) => r matches Err(x) && x@ == e,
        Outcome::Panics => false,
    }
}

/// Ends the current statement (see `finalize_v`).
fn finalize_statement(ps: &mut ParserState, statements: &mut Vec<Statement>) -> (r: Result<
    (),
    ParseError,
>)
    ensures
        match finalize_v(RunV { ps: old(ps)@, stmts: statements_v(old(statements)@) }) {
            Outcome::Done(r2) => r is Ok && final(ps)@ == r2.ps && statements_v(final(statements)@)
                == r2.stmts,
            Outcome::Failed(e) => r matches Err(x) && x@ == e,
            Outcome::Panics => false,
        },
        r is Ok && state_nonneg(old(ps)@) && stmts_nonneg(statements_v(old(statements)@))
            ==> state_nonneg(final(ps)@) && stmts_nonneg(statements_v(final(statements)@)),
        r is Ok && stmts_valid(statements_v(old(statements)@)) ==> stmts_valid(
            statements_v(final(statements)@),
        ),
{
    if let Some(stmt) = ps.current.take() {
        match validate_statement(&stmt) {
            Err(e) => {
                return Err(e);
            },
            Ok(()) => {},
        }
        let ghost before = statements@;
        statements.push(stmt);
        assert(statements_v(statements@) =~= statements_v(before).push(stmt@));
    }
    Ok(())
}

/// Opens a new statement with reference `val`.
fn open_statement(ps: &mut ParserState, val: &str)
    ensures
        final(ps)@ == (ParserStateV {
            current: Some(new_statement_v(val@)),
            transactions: Seq::empty(),
            state: State::Header,
            ..old(ps)@
        }),
        state_nonneg(old(ps)@) ==> state_nonneg(final(ps)@),
{
    ps.current = Some(Statement::new(string_from(val)));
    ps.transactions = Vec::new();
    ps.state = State::Header;
    assert(transactions_v(ps.transactions@) =~= Seq::<TransactionV>::empty());
}

/// Once a run stops (an error or a panic), later tags change nothing.
proof fn lemma_run_fold_stays(lines: Seq<TagLineV>, ks: Seq<DecoderKind>, j: int, k: int)
    requires
        0 <= j <= k,
        !(run_fold(lines, ks, j) is Done),
    ensures
        run_fold(lines, ks, k) == run_fold(lines, ks, j),
    decreases k - j,
{
    if k > j {
        lemma_run_fold_stays(lines, ks, j, k - 1);
    }
}

/// One tag through the FSM (see `fsm_step`), or `None` where it panics.
fn fsm_step_exec(
    tag: &str,
    val: &str,
    chain: &DecoderChain,
    ps: &mut ParserState,
    statements: &mut Vec<Statement>,
) -> (r: Option<Result<(), ParseError>>)
    ensures
        match fsm_step(
            RunV { ps: old(ps)@, stmts: statements_v(old(statements)@) },
            TagLineV { tag: tag@, value: val@ },
            chain@,
        ) {
            Outcome::Done(r2) => r == Some(Ok::<(), ParseError>(())) && final(ps)@ == r2.ps
                && statements_v(final(statements)@) == r2.stmts,
            Outcome::Failed(e) => r matches Some(Err(x)) && x@ == e,
            Outcome::Panics => r is None,
        },
        r == Some(Ok::<(), ParseError>(())) && state_nonneg(old(ps)@) && stmts_nonneg(
            statements_v(old(statements)@),
        ) ==> state_nonneg(final(ps)@) && stmts_nonneg(statements_v(final(statements)@)),
        r == Some(Ok::<(), ParseError>(())) && stmts_valid(statements_v(old(statements)@))
            ==> stmts_valid(statements_v(final(statements)@)),
{
    reveal(fsm_step);
    match ps.state {
        State::Start => {
            if str_is(tag, ":20:") {
                open_statement(ps, val);
            }
            Some(Ok(()))
        },
        State::Header => header_checked(tag, val, ps),
        State::Body => body_checked(tag, val, chain, ps),
        State::Footer => {
            if str_is(tag, ":20:") {
                match finalize_statement(ps, statements) {
                    Err(e) => {
                        return Some(Err(e));
                    },
                    Ok(()) => {},
                }
                open_statement(ps, val);
                Some(Ok(()))
            } else {
                footer_checked(tag, val, ps)
            }
        },
    }
}

/// `parse_mt940`, or `None` where it panics (a balance text sliced inside a
/// multi-byte char).
pub fn parse_mt940_checked(input: &str, chain: &DecoderChain) -> (r: Option<
    Result<Vec<Statement>, ParseError>,
>)
    ensures
        r is None <==> parse_outcome(input@, chain@) is Panics,
        r matches Some(res) ==> parse_result(parse_outcome(input@, chain@), res),
        r matches Some(Ok(v)) ==> stmts_nonneg(statements_v(v@)),
        r matches Some(Ok(v)) ==> stmts_valid(statements_v(v@)) && v@.len() > 0,
{
    let tag_lines = tokenize_lines(input);
    let ghost lines = tokenize(input@);
    let ghost ks = chain@;
    if tag_lines.len() == 0 {
        return Some(Err(ParseError::EmptyInput));
    }
    let mut ps = ParserState::default();
    let mut statements: Vec<Statement> = Vec::new();
    assert(statements_v(statements@) =~= Seq::<StatementV>::empty());
    let n = tag_lines.len();
    let mut i: usize = 0;
    while i < n
        invariant
            n == tag_lines@.len(),
            n > 0,
            lines == tag_lines_v(tag_lines@),
            lines == tokenize(input@),
            ks == chain@,
            i <= n,
            run_fold(lines, ks, i as int) == Outcome::Done(
                RunV { ps: ps@, stmts: statements_v(statements@) },
            ),
            state_nonneg(ps@),
            stmts_nonneg(statements_v(statements@)),
            stmts_valid(statements_v(statements@)),
        decreases n - i,
    {
        assert(lines[i as int] == tag_lines@[i as int]@);
        let ghost r = RunV { ps: ps@, stmts: statements_v(statements@) };
        let res = fsm_step_exec(
            tag_lines[i].tag.as_str(),
            tag_lines[i].value.as_str(),
            chain,
            &mut ps,
            &mut statements,
        );
        assert(run_fold(lines, ks, i + 1) == fsm_step(r, lines[i as int], ks));
        match res {
            Some(Ok(())) => {},
            Some(Err(e)) => {
                proof {
                    lemma_run_fold_stays(lines, ks, i + 1, n as int);
                }
                return Some(Err(e));
            },
            None => {
                proof {
                    lemma_run_fold_stays(lines, ks, i + 1, n as int);
                }
                return None;
            },
        }
        i += 1;
    }
    match finalize_statement(&mut ps, &mut statements) {
        Err(e) => {
            return Some(Err(e));
        },
        Ok(()) => {},
    }
    if statements.len() == 0 {
        return Some(Err(ParseError::EmptyInput));
    }
    Some(Ok(statements))
}

/// Parse MT940 text into statements.
///
/// The input is read tag by tag; each `:20:` opens a statement, which must
/// carry `:25:`, `:28C:`, an opening and a closing balance. `:86:` texts are
/// decoded with `chain`. Input without any statement is `EmptyInput`.
pub fn parse_mt940(input: &str, chain: &DecoderChain) -> (r: Result<Vec<Statement>, ParseError>)
    requires
        !(parse_outcome(input@, chain@) is Panics),
    ensures
        parse_result(parse_outcome(input@, chain@), r),
        r matches Ok(v) ==> stmts_nonneg(statements_v(v@)),
        r matches Ok(v) ==> stmts_valid(statements_v(v@)) && v@.len() > 0,
{
    match parse_mt940_checked(input, chain) {
        Some(r) => r,
        None => Err(ParseError::EmptyInput),
    }
}

} // verus!
