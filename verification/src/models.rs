//! Data models: debit/credit marks, balances, statement numbers,
//! transactions and the key-value details of a transaction.
use vstd::prelude::*;
use crate::amounts::{Amount, AmountV};
use crate::dates::{Date, DateV};
use crate::text::{join, join_strings, push_str, string_from};

verus! {

// ---------------------------------------------------------------------------
// Debit / credit
// ---------------------------------------------------------------------------

/// Debit or credit indicator for transactions and balances.
///
/// In camt.053 output, this maps to `<CdtDbtInd>` (DBIT or CRDT).
/// Reversal indicators (RD, RC) are captured as separate debit/credit
/// type with the reversal flag set.
#[derive(Debug, Clone, Copy, PartialEq, Eq, Structural)]
pub enum DebitOrCredit {
    /// Regular debit: money leaving the account
    Debit,
    /// Regular credit: money entering the account
    Credit,
    /// Reversal of a previous debit entry: treated as credit
    ReversalDebit,
    /// Reversal of a previous credit entry: treated as debit
    ReversalCredit,
}

/// Money enters the account (Credit or ReversalDebit).
pub open spec fn dc_is_credit(d: DebitOrCredit) -> bool {
    d is Credit || d is ReversalDebit
}

/// Money leaves the account (Debit or ReversalCredit).
pub open spec fn dc_is_debit(d: DebitOrCredit) -> bool {
    d is Debit || d is ReversalCredit
}

pub open spec fn dc_is_reversal(d: DebitOrCredit) -> bool {
    d is ReversalDebit || d is ReversalCredit
}

pub open spec fn dc_effective(d: DebitOrCredit) -> DebitOrCredit {
    match d {
        DebitOrCredit::ReversalDebit => DebitOrCredit::Credit,
        DebitOrCredit::ReversalCredit => DebitOrCredit::Debit,
        other => other,
    }
}

/// The MT940 mark: `D`, `C`, `RD` or `RC`.
pub open spec fn dc_code(d: DebitOrCredit) -> Seq<char> {
    match d {
        DebitOrCredit::Debit => seq!['D'],
        DebitOrCredit::Credit => seq!['C'],
        DebitOrCredit::ReversalDebit => seq!['R', 'D'],
        DebitOrCredit::ReversalCredit => seq!['R', 'C'],
    }
}

impl DebitOrCredit {
    /// Returns true if this entry represents money entering the account
    /// (Credit or ReversalDebit).
    pub fn is_credit(&self) -> (b: bool)
        ensures
            b == dc_is_credit(*self),
    {
        matches!(self, DebitOrCredit::Credit | DebitOrCredit::ReversalDebit)
    }

    /// Returns true if this entry represents money leaving the account
    /// (Debit or ReversalCredit).
    pub fn is_debit(&self) -> (b: bool)
        ensures
            b == dc_is_debit(*self),
    {
        matches!(self, DebitOrCredit::Debit | DebitOrCredit::ReversalCredit)
    }

    /// Returns true if this is a reversal.
    pub fn is_reversal(&self) -> (b: bool)
        ensures
            b == dc_is_reversal(*self),
    {
        matches!(self, DebitOrCredit::ReversalDebit | DebitOrCredit::ReversalCredit)
    }

    /// Returns the effective (non-reversal) debit/credit classification.
    pub fn effective(&self) -> (r: DebitOrCredit)
        ensures
            r == dc_effective(*self),
    {
        match self {
            DebitOrCredit::ReversalDebit => DebitOrCredit::Credit,
            DebitOrCredit::ReversalCredit => DebitOrCredit::Debit,
            other => *other,
        }
    }

    /// The MT940 mark (`D`, `C`, `RD`, `RC`).
    pub fn to_string(&self) -> (s: String)
        ensures
            s@ == dc_code(*self),
    {
        let mut s = String::new();
        match self {
            DebitOrCredit::Debit => {
                s.push('D');
            },
            DebitOrCredit::Credit => {
                s.push('C');
            },
            DebitOrCredit::ReversalDebit => {
                s.push('R');
                s.push('D');
            },
            DebitOrCredit::ReversalCredit => {
                s.push('R');
                s.push('C');
            },
        }
        s
    }
}

/// Every entry is exactly one of debit and credit; `effective` keeps the
/// direction and removes the reversal; reversals are the marks that
/// `effective` changes.
pub proof fn law_debit_credit_classification(d: DebitOrCredit)
    ensures
        dc_is_debit(d) != dc_is_credit(d),
        dc_is_debit(dc_effective(d)) == dc_is_debit(d),
        !dc_is_reversal(dc_effective(d)),
        dc_effective(dc_effective(d)) == dc_effective(d),
        dc_is_reversal(d) <==> dc_effective(d) != d,
{
}

// ---------------------------------------------------------------------------
// Key-value details
// ---------------------------------------------------------------------------

pub open spec fn entry_views(e: Seq<(String, String)>) -> Seq<(Seq<char>, Seq<char>)> {
    e.map_values(|p: (String, String)| (p.0@, p.1@))
}

/// The map built by inserting the pairs in order (later pairs win).
pub open spec fn map_of(e: Seq<(Seq<char>, Seq<char>)>) -> Map<Seq<char>, Seq<char>>
    decreases e.len(),
{
    if e.len() == 0 {
        Map::empty()
    } else {
        map_of(e.drop_last()).insert(e.last().0, e.last().1)
    }
}

pub open spec fn keys_unique(e: Seq<(Seq<char>, Seq<char>)>) -> bool {
    forall|i: int, j: int| 0 <= i < e.len() && 0 <= j < e.len() && i != j ==> e[i].0 != e[j].0
}

pub proof fn lemma_map_of(e: Seq<(Seq<char>, Seq<char>)>)
    requires
        keys_unique(e),
    ensures
        map_of(e).dom().finite(),
        map_of(e).len() == e.len(),
        forall|k: Seq<char>|
            map_of(e).contains_key(k) <==> exists|i: int| 0 <= i < e.len() && e[i].0 == k,
        forall|i: int| 0 <= i < e.len() ==> map_of(e)[#[trigger] e[i].0] == e[i].1,
    decreases e.len(),
{
    if e.len() > 0 {
        let d = e.drop_last();
        assert(keys_unique(d));
        lemma_map_of(d);
        let k = e.last().0;
        assert(!map_of(d).contains_key(k)) by {
            if map_of(d).contains_key(k) {
                let i = choose|i: int| 0 <= i < d.len() && d[i].0 == k;
                assert(e[i].0 == e[e.len() - 1].0);
            }
        }
        assert forall|kk: Seq<char>|
            map_of(e).contains_key(kk) <==> exists|i: int| 0 <= i < e.len() && e[i].0 == kk by {
            if map_of(e).contains_key(kk) && kk != k {
                let i = choose|i: int| 0 <= i < d.len() && d[i].0 == kk;
                assert(e[i].0 == kk);
            }
            if exists|i: int| 0 <= i < e.len() && e[i].0 == kk {
                let i = choose|i: int| 0 <= i < e.len() && e[i].0 == kk;
                if i < e.len() - 1 {
                    assert(d[i].0 == kk);
                }
            }
        }
        assert forall|i: int| 0 <= i < e.len() implies map_of(e)[#[trigger] e[i].0] == e[i].1 by {
            if i < e.len() - 1 {
                assert(d[i] == e[i]);
                assert(e[i].0 != k);
            }
        }
    }
}

/// Key-value pairs decoded from a Tag 86 block; each key occurs once and a
/// later insert of a key replaces its value (as a `HashMap<String, String>`).
#[derive(Debug)]
pub struct FieldMap {
    entries: Vec<(String, String)>,
}

impl View for FieldMap {
    type V = Map<Seq<char>, Seq<char>>;

    closed spec fn view(&self) -> Map<Seq<char>, Seq<char>> {
        map_of(entry_views(self.entries@))
    }
}

impl FieldMap {
    #[verifier::type_invariant]
    closed spec fn inv(self) -> bool {
        keys_unique(entry_views(self.entries@))
    }

    pub fn new() -> (m: FieldMap)
        ensures
            m@ == Map::<Seq<char>, Seq<char>>::empty(),
    {
        let m = FieldMap { entries: Vec::new() };
        assert(entry_views(m.entries@) =~= Seq::<(Seq<char>, Seq<char>)>::empty());
        m
    }

    /// Index of `key` among the entries.
    fn position(&self, key: &String) -> (r: Option<usize>)
        ensures
            match r {
                Some(i) => i < self.entries@.len() && self.entries@[i as int].0@ == key@,
                None => forall|i: int|
                    0 <= i < self.entries@.len() ==> self.entries@[i].0@ != key@,
            },
    {
        let mut i: usize = 0;
        while i < self.entries.len()
            invariant
                i <= self.entries@.len(),
                forall|j: int| 0 <= j < i ==> self.entries@[j].0@ != key@,
            decreases self.entries@.len() - i,
        {
            if self.entries[i].0 == *key {
                return Some(i);
            }
            i += 1;
        }
        None
    }

    /// Insert `value` under `key`, replacing an earlier value of `key`.
    pub fn insert(&mut self, key: String, value: String)
        ensures
            final(self)@ == old(self)@.insert(key@, value@),
    {
        proof {
            use_type_invariant(&*self);
            lemma_map_of(entry_views(self.entries@));
        }
        let ghost old_e = entry_views(self.entries@);
        let ghost k = key@;
        let ghost val = value@;
        match self.position(&key) {
            Some(i) => {
                let mut entries: Vec<(String, String)> = Vec::new();
                std::mem::swap(&mut entries, &mut self.entries);
                entries.set(i, (key, value));
                proof {
                    let ne = entry_views(entries@);
                    assert(ne =~= old_e.update(i as int, (k, val)));
                    assert(old_e[i as int].0 == k);
                    assert forall|a: int, b: int|
                        0 <= a < ne.len() && 0 <= b < ne.len() && a != b implies ne[a].0
                        != ne[b].0 by {
                        assert(ne[a].0 == old_e[a].0);
                        assert(ne[b].0 == old_e[b].0);
                    }
                    assert(keys_unique(ne));
                    lemma_map_of(ne);
                    assert(map_of(ne) =~= map_of(old_e).insert(k, val)) by {
                        assert forall|kk: Seq<char>|
                            #![auto]
                            map_of(ne).contains_key(kk) == map_of(old_e).insert(
                                k,
                                val,
                            ).contains_key(kk) by {
                            if map_of(ne).contains_key(kk) {
                                let j = choose|j: int| 0 <= j < ne.len() && ne[j].0 == kk;
                                if j != i {
                                    assert(old_e[j].0 == kk);
                                    assert(exists|jj: int| 0 <= jj < old_e.len() && old_e[jj].0 == kk);
                                }
                            }
                            if map_of(old_e).insert(k, val).contains_key(kk) {
                                if kk == k {
                                    assert(ne[i as int].0 == kk);
                                    assert(exists|jj: int| 0 <= jj < ne.len() && ne[jj].0 == kk);
                                } else {
                                    let j = choose|j: int| 0 <= j < old_e.len() && old_e[j].0 == kk;
                                    assert(ne[j].0 == kk);
                                    assert(exists|jj: int| 0 <= jj < ne.len() && ne[jj].0 == kk);
                                }
                            }
                        }
                        assert forall|kk: Seq<char>|
                            map_of(ne).contains_key(kk) implies #[trigger] map_of(ne)[kk]
                            == map_of(old_e).insert(k, val)[kk] by {
                            let j = choose|j: int| 0 <= j < ne.len() && ne[j].0 == kk;
                            assert(map_of(ne)[ne[j].0] == ne[j].1);
                            if j != i {
                                assert(old_e[j] == ne[j]);
                                assert(map_of(old_e)[old_e[j].0] == old_e[j].1);
                            }
                        }
                    }
                }
                self.entries = entries;
            },
            None => {
                let mut entries: Vec<(String, String)> = Vec::new();
                std::mem::swap(&mut entries, &mut self.entries);
                entries.push((key, value));
                proof {
                    let ne = entry_views(entries@);
                    assert(ne.drop_last() =~= old_e);
                    assert(ne =~= old_e.push((k, val)));
                    assert(keys_unique(ne));
                }
                self.entries = entries;
            },
        }
    }

    /// The value of `key`, if present.
    pub fn get(&self, key: &str) -> (r: Option<&String>)
        ensures
            match r {
                Some(v) => self@.contains_key(key@) && v@ == self@[key@],
                None => !self@.contains_key(key@),
            },
    {
        proof {
            use_type_invariant(self);
            lemma_map_of(entry_views(self.entries@));
        }
        let k = string_from(key);
        match self.position(&k) {
            Some(i) => {
                proof {
                    assert(entry_views(self.entries@)[i as int].0 == key@);
                }
                Some(&self.entries[i].1)
            },
            None => {
                proof {
                    if self@.contains_key(key@) {
                        let j = choose|j: int|
                            0 <= j < entry_views(self.entries@).len() && entry_views(
                                self.entries@,
                            )[j].0 == key@;
                        assert(self.entries@[j].0@ == key@);
                    }
                }
                None
            },
        }
    }

    pub fn contains_key(&self, key: &str) -> (b: bool)
        ensures
            b == self@.contains_key(key@),
    {
        self.get(key).is_some()
    }

    pub fn len(&self) -> (n: usize)
        ensures
            n == self@.len(),
    {
        proof {
            use_type_invariant(self);
            lemma_map_of(entry_views(self.entries@));
        }
        self.entries.len()
    }

    pub fn is_empty(&self) -> (b: bool)
        ensures
            b == (self@.len() == 0),
    {
        self.len() == 0
    }

    /// The pairs in insertion order (each key once).
    pub fn pairs(&self) -> (r: &Vec<(String, String)>)
        ensures
            map_of(entry_views(r@)) == self@,
            keys_unique(entry_views(r@)),
    {
        proof {
            use_type_invariant(self);
        }
        &self.entries
    }
}

impl Clone for FieldMap {
    fn clone(&self) -> (r: FieldMap)
        ensures
            r@ == self@,
    {
        proof {
            use_type_invariant(self);
        }
        let mut entries: Vec<(String, String)> = Vec::new();
        let mut i: usize = 0;
        while i < self.entries.len()
            invariant
                i <= self.entries@.len(),
                entry_views(entries@) == entry_views(self.entries@).take(i as int),
            decreases self.entries@.len() - i,
        {
            let k = clone_string(&self.entries[i].0);
            let v = clone_string(&self.entries[i].1);
            let ghost before = entries@;
            entries.push((k, v));
            proof {
                assert(entry_views(entries@) =~= entry_views(before).push(
                    entry_views(self.entries@)[i as int],
                ));
                assert(entry_views(self.entries@).take(i + 1) =~= entry_views(self.entries@).take(
                    i as int,
                ).push(entry_views(self.entries@)[i as int]));
            }
            i += 1;
        }
        proof {
            assert(entry_views(self.entries@).take(self.entries@.len() as int) =~= entry_views(
                self.entries@,
            ));
        }
        FieldMap { entries }
    }
}

/// A map with the single pair `key -> value`.
pub open spec fn single_map(key: Seq<char>, value: Seq<char>) -> Map<Seq<char>, Seq<char>> {
    Map::<Seq<char>, Seq<char>>::empty().insert(key, value)
}

// ---------------------------------------------------------------------------
// Details resolution
// ---------------------------------------------------------------------------

/// Value of `key` in `m`, if present.
pub open spec fn lookup(m: Map<Seq<char>, Seq<char>>, key: Seq<char>) -> Option<Seq<char>> {
    if m.contains_key(key) {
        Some(m[key])
    } else {
        None
    }
}

/// Key of the GVC remittance line `?2d` (`"20"` to `"29"`).
pub open spec fn gvc_line_key(d: int) -> Seq<char> {
    seq!['2', crate::dates::digit_char(d)]
}

/// Values of the GVC remittance lines `?20` .. `?2(n-1)` that are present, in order.
pub open spec fn gvc_lines(m: Map<Seq<char>, Seq<char>>, n: int) -> Seq<Seq<char>>
    decreases n,
{
    if n <= 0 {
        Seq::empty()
    } else {
        let rest = gvc_lines(m, n - 1);
        match lookup(m, gvc_line_key(n - 1)) {
            Some(v) => rest.push(v),
            None => rest,
        }
    }
}

/// Counterparty from details: SWIFT `NAME`, else GVC `32` (with `33`
/// appended after a space), else Angular `27`.
pub open spec fn details_counterparty(m: Map<Seq<char>, Seq<char>>) -> Option<Seq<char>> {
    if m.contains_key("NAME"@) {
        Some(m["NAME"@])
    } else if m.contains_key("32"@) {
        if m.contains_key("33"@) {
            Some(m["32"@] + seq![' '] + m["33"@])
        } else {
            Some(m["32"@])
        }
    } else {
        lookup(m, "27"@)
    }
}

/// Counterparty IBAN from details: GVC `31`, else Angular `30`, else SWIFT `IBAN`.
pub open spec fn details_counter_iban(m: Map<Seq<char>, Seq<char>>) -> Option<Seq<char>> {
    if m.contains_key("31"@) {
        Some(m["31"@])
    } else if m.contains_key("30"@) {
        Some(m["30"@])
    } else {
        lookup(m, "IBAN"@)
    }
}

/// Purpose from details: GVC `20`..`29` joined with spaces, else SWIFT
/// `REMI`, else SWIFT `EREF`.
pub open spec fn details_purpose(m: Map<Seq<char>, Seq<char>>) -> Option<Seq<char>> {
    let lines = gvc_lines(m, 10);
    if lines.len() > 0 {
        Some(join(lines, seq![' ']))
    } else if m.contains_key("REMI"@) {
        Some(m["REMI"@])
    } else {
        lookup(m, "EREF"@)
    }
}

fn clone_string(s: &String) -> (r: String)
    ensures
        r@ == s@,
{
    s.clone()
}

/// `details_counterparty` of `sd`.
pub fn counterparty_of(sd: &FieldMap) -> (r: Option<String>)
    ensures
        match r {
            Some(s) => details_counterparty(sd@) == Some(s@),
            None => details_counterparty(sd@) is None,
        },
{
    if let Some(name) = sd.get("NAME") {
        return Some(clone_string(name));
    }
    if let Some(name) = sd.get("32") {
        if let Some(cont) = sd.get("33") {
            let mut s = clone_string(name);
            s.push(' ');
            push_str(&mut s, cont.as_str());
            return Some(s);
        }
        return Some(clone_string(name));
    }
    match sd.get("27") {
        Some(n) => Some(clone_string(n)),
        None => None,
    }
}

/// `details_counter_iban` of `sd`.
pub fn counter_iban_of(sd: &FieldMap) -> (r: Option<String>)
    ensures
        match r {
            Some(s) => details_counter_iban(sd@) == Some(s@),
            None => details_counter_iban(sd@) is None,
        },
{
    if let Some(v) = sd.get("31") {
        return Some(clone_string(v));
    }
    if let Some(v) = sd.get("30") {
        return Some(clone_string(v));
    }
    match sd.get("IBAN") {
        Some(v) => Some(clone_string(v)),
        None => None,
    }
}

/// The present GVC remittance lines `?20`..`?29`, in order.
fn gvc_remittance_lines(sd: &FieldMap) -> (r: Vec<String>)
    ensures
        r@.map_values(|s: String| s@) == gvc_lines(sd@, 10),
{
    let mut out: Vec<String> = Vec::new();
    let mut d: u32 = 0;
    while d < 10
        invariant
            d <= 10,
            out@.map_values(|s: String| s@) == gvc_lines(sd@, d as int),
        decreases 10 - d,
    {
        let mut key = String::new();
        key.push('2');
        let c = digit_char_exec(d);
        key.push(c);
        proof {
            assert(key@ =~= gvc_line_key(d as int));
        }
        let ghost before = out@;
        match sd.get(key.as_str()) {
            Some(v) => {
                out.push(clone_string(v));
                proof {
                    assert(out@.map_values(|s: String| s@) =~= before.map_values(|s: String| s@).push(v@));
                }
            },
            None => {},
        }
        d += 1;
    }
    out
}

pub fn digit_char_exec(d: u32) -> (c: char)
    requires
        d < 10,
    ensures
        c == crate::dates::digit_char(d as int),
{
    if d == 0 {
        '0'
    } else if d == 1 {
        '1'
    } else if d == 2 {
        '2'
    } else if d == 3 {
        '3'
    } else if d == 4 {
        '4'
    } else if d == 5 {
        '5'
    } else if d == 6 {
        '6'
    } else if d == 7 {
        '7'
    } else if d == 8 {
        '8'
    } else {
        '9'
    }
}

/// `details_purpose` of `sd`.
pub fn purpose_of(sd: &FieldMap) -> (r: Option<String>)
    ensures
        match r {
            Some(s) => details_purpose(sd@) == Some(s@),
            None => details_purpose(sd@) is None,
        },
{
    let lines = gvc_remittance_lines(sd);
    proof {
        reveal_strlit(" ");
        assert(" "@ =~= seq![' ']);
    }
    if lines.len() > 0 {
        return Some(join_strings(&lines, " "));
    }
    if let Some(v) = sd.get("REMI") {
        return Some(clone_string(v));
    }
    match sd.get("EREF") {
        Some(v) => Some(clone_string(v)),
        None => None,
    }
}

// ---------------------------------------------------------------------------
// Balances and statement numbers
// ---------------------------------------------------------------------------

/// A balance entry: opening, closing, or available balance.
///
/// Balances always store a positive `amount` with the sign disambiguated
/// by the `debit_credit` field.
#[derive(Debug, Clone)]
pub struct Balance {
    /// Whether this is an intermediate (M) or final (F) balance
    pub is_intermediate: bool,
    /// Debit or credit indicator for the balance
    pub debit_credit: DebitOrCredit,
    /// Balance date (from the 6-digit YYMMDD field)
    pub date: Date,
    /// ISO 4217 currency code (3 characters)
    pub currency: String,
    /// Balance amount: always positive (sign in `debit_credit`)
    pub amount: Amount,
}

pub struct BalanceV {
    pub is_intermediate: bool,
    pub debit_credit: DebitOrCredit,
    pub date: DateV,
    pub currency: Seq<char>,
    pub amount: AmountV,
}

impl View for Balance {
    type V = BalanceV;

    open spec fn view(&self) -> BalanceV {
        BalanceV {
            is_intermediate: self.is_intermediate,
            debit_credit: self.debit_credit,
            date: self.date@,
            currency: self.currency@,
            amount: self.amount@,
        }
    }
}

/// The balance a statement holds before its balance tag is read: a zero
/// credit on 1970-01-01 with no currency.
pub open spec fn default_balance_v() -> BalanceV {
    BalanceV {
        is_intermediate: false,
        debit_credit: DebitOrCredit::Credit,
        date: crate::dates::date_v(1970, 1, 1),
        currency: Seq::empty(),
        amount: AmountV { negative: false, mantissa: 0, scale: 0 },
    }
}

impl Default for Balance {
    fn default() -> (b: Balance)
        ensures
            b@ == default_balance_v(),
    {
        Balance {
            is_intermediate: false,
            debit_credit: DebitOrCredit::Credit,
            date: Date::epoch(),
            currency: String::new(),
            amount: Amount::zero(),
        }
    }
}

/// Parsed representation of the `:28C:` Statement Number / Sequence Number tag.
#[derive(Debug, Clone, PartialEq, Eq)]
pub struct StatementNumber {
    /// Statement number (first part before `/`)
    pub statement: String,
    /// Sequence number (second part after `/`, if present)
    pub sequence: Option<String>,
}

pub struct StatementNumberV {
    pub statement: Seq<char>,
    pub sequence: Option<Seq<char>>,
}

pub open spec fn opt_string_v(o: Option<String>) -> Option<Seq<char>> {
    match o {
        Some(s) => Some(s@),
        None => None,
    }
}

impl View for StatementNumber {
    type V = StatementNumberV;

    open spec fn view(&self) -> StatementNumberV {
        StatementNumberV { statement: self.statement@, sequence: opt_string_v(self.sequence) }
    }
}

// ---------------------------------------------------------------------------
// Transactions
// ---------------------------------------------------------------------------

/// A single transaction entry: parsed from a :61: / :86: tag pair.
///
/// The `amount` field is always stored as a **positive** value.
/// The sign is indicated by the `debit_credit` field:
///   - `Debit` or `ReversalCredit`: money leaving the account
///   - `Credit` or `ReversalDebit`: money entering the account
#[derive(Debug, Clone)]
pub struct Transaction {
    /// Value date (YYMMDD from :61: positions 0-5)
    pub value_date: Date,
    /// Entry date (MMDD from :61: positions 6-9), inferred from value_date
    pub entry_date: Option<Date>,
    /// Debit or credit indicator
    pub debit_credit: DebitOrCredit,
    /// Optional funds code (1 character; third currency letter variant)
    pub funds_code: Option<String>,
    /// Transaction amount: always positive (sign in `debit_credit`)
    pub amount: Amount,
    /// Transaction type ID code (e.g., "NTRF", "NMSC", "N166")
    pub transaction_type: String,
    /// Customer reference from :61:
    pub customer_reference: String,
    /// Bank reference from :61: (the `//bankref` portion)
    pub bank_reference: Option<String>,
    /// Supplementary details from :61: continuation lines
    pub supplementary: Option<String>,
    /// Raw, concatenated :86: text: always preserved
    pub details: String,
    /// Parsed key-value pairs from :86: text when a dialect decoder matches.
    /// `None` means no :86: followed: the raw `details` text is the fallback
    pub structured_details: Option<FieldMap>,
}

pub struct TransactionV {
    pub value_date: DateV,
    pub entry_date: Option<DateV>,
    pub debit_credit: DebitOrCredit,
    pub funds_code: Option<Seq<char>>,
    pub amount: AmountV,
    pub transaction_type: Seq<char>,
    pub customer_reference: Seq<char>,
    pub bank_reference: Option<Seq<char>>,
    pub supplementary: Option<Seq<char>>,
    pub details: Seq<char>,
    pub structured_details: Option<Map<Seq<char>, Seq<char>>>,
}

pub open spec fn opt_date_v(o: Option<Date>) -> Option<DateV> {
    match o {
        Some(d) => Some(d@),
        None => None,
    }
}

pub open spec fn opt_map_v(o: Option<FieldMap>) -> Option<Map<Seq<char>, Seq<char>>> {
    match o {
        Some(m) => Some(m@),
        None => None,
    }
}

impl View for Transaction {
    type V = TransactionV;

    open spec fn view(&self) -> TransactionV {
        TransactionV {
            value_date: self.value_date@,
            entry_date: opt_date_v(self.entry_date),
            debit_credit: self.debit_credit,
            funds_code: opt_string_v(self.funds_code),
            amount: self.amount@,
            transaction_type: self.transaction_type@,
            customer_reference: self.customer_reference@,
            bank_reference: opt_string_v(self.bank_reference),
            supplementary: opt_string_v(self.supplementary),
            details: self.details@,
            structured_details: opt_map_v(self.structured_details),
        }
    }
}

/// The amount with the sign of the entry: negative for debits (D, RC).
pub open spec fn signed_amount_v(t: TransactionV) -> AmountV {
    if dc_is_debit(t.debit_credit) {
        AmountV { negative: !t.amount.negative, ..t.amount }
    } else {
        t.amount
    }
}

pub open spec fn tx_counterparty(t: TransactionV) -> Option<Seq<char>> {
    match t.structured_details {
        Some(m) => details_counterparty(m),
        None => None,
    }
}

pub open spec fn tx_counter_iban(t: TransactionV) -> Option<Seq<char>> {
    match t.structured_details {
        Some(m) => details_counter_iban(m),
        None => None,
    }
}

pub open spec fn tx_purpose(t: TransactionV) -> Option<Seq<char>> {
    match t.structured_details {
        Some(m) => details_purpose(m),
        None => None,
    }
}

impl Transaction {
    /// Returns the amount with sign applied: negative for debits (D, RC),
    /// positive for credits (C, RD).
    pub fn signed_amount(&self) -> (a: Amount)
        ensures
            a@ == signed_amount_v(self@),
    {
        if self.debit_credit.is_debit() {
            self.amount.neg()
        } else {
            self.amount
        }
    }

    /// Returns the counterparty name from structured details: SWIFT `NAME`,
    /// else German GVC `32` (with `33` joined by a space), else Angular `27`.
    pub fn counterparty(&self) -> (r: Option<String>)
        ensures
            opt_string_v(r) == tx_counterparty(self@),
    {
        match &self.structured_details {
            Some(sd) => counterparty_of(sd),
            None => None,
        }
    }

    /// Returns the counterparty account from structured details: GVC `31`,
    /// else Angular `30`, else SWIFT `IBAN`.
    pub fn counter_iban(&self) -> (r: Option<String>)
        ensures
            opt_string_v(r) == tx_counter_iban(self@),
    {
        match &self.structured_details {
            Some(sd) => counter_iban_of(sd),
            None => None,
        }
    }

    /// Returns the purpose text from structured details: GVC `20`..`29`
    /// joined with spaces, else SWIFT `REMI`, else SWIFT `EREF`.
    pub fn purpose(&self) -> (r: Option<String>)
        ensures
            opt_string_v(r) == tx_purpose(self@),
    {
        match &self.structured_details {
            Some(sd) => purpose_of(sd),
            None => None,
        }
    }
}

/// The signed amount of an entry has the magnitude and scale of its amount,
/// and is negative exactly when the entry is a debit (for a non-negative
/// stored amount).
pub proof fn law_signed_amount_sign(t: TransactionV)
    requires
        !t.amount.negative,
    ensures
        signed_amount_v(t).mantissa == t.amount.mantissa,
        signed_amount_v(t).scale == t.amount.scale,
        signed_amount_v(t).negative == dc_is_debit(t.debit_credit),
        signed_mantissa_sign(t),
{
}

/// The signed numeric value is `-amount` for debits and `amount` for credits.
pub open spec fn signed_mantissa_sign(t: TransactionV) -> bool {
    crate::amounts::signed_mantissa(signed_amount_v(t)) == if dc_is_debit(t.debit_credit) {
        -crate::amounts::signed_mantissa(t.amount)
    } else {
        crate::amounts::signed_mantissa(t.amount)
    }
}

} // verus!
