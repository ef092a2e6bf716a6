//! Field parsers for the tags of a statement: `:28C:`, the balance tags
//! (`:60F:`, `:60M:`, `:62F:`, `:62M:`, `:64:`, `:65:`) and `:61:`.
use vstd::prelude::*;
use crate::amounts::{mt940_amount, parse_amount_chars};
use crate::dates::{
    char_index_at_byte, char_index_at_byte_exec, lemma_char_index_at_byte, mt940_date,
    parse_date_range,
};
use crate::error::{invalid_amount_v, invalid_date_v, ParseError, ParseErrorV};
use crate::models::{Balance, BalanceV, DebitOrCredit, StatementNumber, StatementNumberV};
use crate::text::{
    byte_len, byte_len_capped, chars_of, find_char, find_char_range, lemma_byte_len_concat,
    lemma_byte_len_ge_len, lemma_find_char, string_from, string_of_range, utf8_len,
    utf8_len_exec,
};

verus! {

/// What a parsing step comes to: a value, an error, or a panic (a string
/// slice that does not fall on a char boundary).
pub enum Outcome<T> {
    Done(T),
    Failed(ParseErrorV),
    Panics,
}

// ---------------------------------------------------------------------------
// :28C: statement number
// ---------------------------------------------------------------------------

/// `:28C:` value `NNNNN/SSSSS`: the text before the first `/` and, when there
/// is one, the text after it.
pub open spec fn statement_number_v(value: Seq<char>) -> StatementNumberV {
    match find_char(value, '/') {
        Some(i) => StatementNumberV { statement: value.take(i), sequence: Some(value.skip(i + 1)) },
        None => StatementNumberV { statement: value, sequence: None },
    }
}

/// Parses a `:28C:` value.
pub fn parse_statement_number(value: &str) -> (r: StatementNumber)
    ensures
        r@ == statement_number_v(value@),
{
    let v = chars_of(value);
    let n = v.len();
    assert(v@.subrange(0, n as int) =~= v@);
    match find_char_range(v.as_slice(), 0, n, '/') {
        Some(i) => {
            proof {
                lemma_find_char(v@, '/');
                assert(v@.take(i as int) =~= v@.subrange(0, i as int));
                assert(v@.skip(i + 1) =~= v@.subrange(i + 1, n as int));
            }
            StatementNumber {
                statement: string_of_range(v.as_slice(), 0, i),
                sequence: Some(string_of_range(v.as_slice(), i + 1, n)),
            }
        },
        None => StatementNumber { statement: string_from(value), sequence: None },
    }
}

/// The statement number and the sequence number, when there is one, join
/// back to the `:28C:` value with a `/`; the statement number holds no `/`.
pub proof fn law_statement_number_rejoins(value: Seq<char>)
    ensures
        find_char(statement_number_v(value).statement, '/') is None,
        match statement_number_v(value).sequence {
            Some(q) => statement_number_v(value).statement + seq!['/'] + q == value,
            None => statement_number_v(value).statement == value,
        },
{
    lemma_find_char(value, '/');
    match find_char(value, '/') {
        Some(i) => {
            assert(value.take(i) + seq!['/'] + value.skip(i + 1) =~= value);
            lemma_find_char(value.take(i), '/');
        },
        None => {},
    }
}

// ---------------------------------------------------------------------------
// Balances
// ---------------------------------------------------------------------------

/// The error for a malformed balance value.
pub open spec fn balance_format_error(value: Seq<char>, reason: Seq<char>) -> ParseErrorV {
    ParseErrorV::InvalidFormat { tag: "balance"@, value, reason }
}

/// A balance value `[C|D]YYMMDDCCCAMOUNT`, read by byte offsets: the mark at
/// byte 0, the date in bytes 1..7, the currency in bytes 7..10, the amount
/// from byte 10. A value under 11 bytes is too short; an offset inside a
/// multi-byte char panics.
pub open spec fn balance_outcome(value: Seq<char>, is_intermediate: bool) -> Outcome<BalanceV> {
    if byte_len(value) < 11 {
        Outcome::Failed(balance_format_error(value, "too short"@))
    } else if utf8_len(value[0]) != 1 {
        Outcome::Panics
    } else if value[0] != 'C' && value[0] != 'D' {
        Outcome::Failed(balance_format_error(value, "invalid D/C mark"@))
    } else {
        let dc = if value[0] == 'C' {
            DebitOrCredit::Credit
        } else {
            DebitOrCredit::Debit
        };
        match char_index_at_byte(value, 7) {
            None => Outcome::Panics,
            Some(i7) => {
                let date_text = value.subrange(1, i7);
                match mt940_date(date_text) {
                    None => Outcome::Failed(invalid_date_v(date_text)),
                    Some(date) => match char_index_at_byte(value, 10) {
                        None => Outcome::Panics,
                        Some(i10) => match mt940_amount(value.skip(i10)) {
                            None => Outcome::Failed(invalid_amount_v(value.skip(i10))),
                            Some(amount) => Outcome::Done(
                                BalanceV {
                                    is_intermediate,
                                    debit_credit: dc,
                                    date,
                                    currency: value.subrange(i7, i10),
                                    amount,
                                },
                            ),
                        },
                    },
                }
            },
        }
    }
}

/// Byte offsets 1, 7 and 10 of a balance value fall between chars in order.
proof fn lemma_balance_offsets(v: Seq<char>, i7: int)
    requires
        v.len() > 0,
        utf8_len(v[0]) == 1,
        char_index_at_byte(v, 7) == Some(i7),
    ensures
        1 <= i7 <= v.len(),
        i7 - 1 <= 6,
        byte_len(v.subrange(1, i7)) == 6,
        forall|i10: int| char_index_at_byte(v, 10) == Some(i10) ==> i7 <= i10 <= v.len(),
{
    lemma_char_index_at_byte(v, 7);
    if i7 == 0 {
        assert(v.take(0) =~= Seq::<char>::empty());
    }
    assert(v.take(i7) =~= seq![v[0]] + v.subrange(1, i7));
    assert(seq![v[0]].drop_last() =~= Seq::<char>::empty());
    assert(byte_len(Seq::<char>::empty()) == 0);
    assert(byte_len(seq![v[0]]) == 1);
    lemma_byte_len_concat(seq![v[0]], v.subrange(1, i7));
    lemma_byte_len_ge_len(v.subrange(1, i7));
    assert forall|i10: int| char_index_at_byte(v, 10) == Some(i10) implies i7 <= i10 <= v.len() by {
        lemma_char_index_at_byte(v, 10);
        if i10 < i7 {
            assert(v.take(i7) =~= v.take(i10) + v.subrange(i10, i7));
            lemma_byte_len_concat(v.take(i10), v.subrange(i10, i7));
        }
    }
}

/// `parse_balance`, or `None` where it panics.
pub fn parse_balance_checked(value: &str, is_intermediate: bool) -> (r: Option<
    Result<Balance, ParseError>,
>)
    ensures
        r is None <==> balance_outcome(value@, is_intermediate) is Panics,
        r matches Some(Ok(b)) ==> balance_outcome(value@, is_intermediate) == Outcome::Done(b@),
        r matches Some(Err(e)) ==> balance_outcome(value@, is_intermediate) == Outcome::<
            BalanceV,
        >::Failed(e@),
        r matches Some(Ok(b)) ==> !b.amount@.negative,
{
    let v = chars_of(value);
    let n = v.len();
    assert(v@.subrange(0, n as int) =~= v@);
    if byte_len_capped(v.as_slice(), 0, n, 11) < 11 {
        return Some(
            Err(
                ParseError::InvalidFormat {
                    tag: "balance",
                    value: string_from(value),
                    reason: string_from("too short"),
                },
            ),
        );
    }
    proof {
        if n == 0 {
            assert(byte_len(v@) == 0);
        }
    }
    if utf8_len_exec(v[0]) != 1 {
        return None;
    }
    let debit_credit = if v[0] == 'C' {
        DebitOrCredit::Credit
    } else if v[0] == 'D' {
        DebitOrCredit::Debit
    } else {
        return Some(
            Err(
                ParseError::InvalidFormat {
                    tag: "balance",
                    value: string_from(value),
                    reason: string_from("invalid D/C mark"),
                },
            ),
        );
    };
    let i7 = match char_index_at_byte_exec(v.as_slice(), 0, n, 7) {
        Some(i) => i,
        None => {
            return None;
        },
    };
    proof {
        lemma_char_index_at_byte(v@, 7);
        assert(char_index_at_byte(v@, 7) == Some(i7 as int));
        lemma_balance_offsets(v@, i7 as int);
    }
    let date = match parse_date_range(v.as_slice(), 1, i7) {
        Some(d) => d,
        None => {
            return Some(
                Err(
                    ParseError::InvalidDate {
                        value: string_of_range(v.as_slice(), 1, i7),
                        tag: "(date field)",
                    },
                ),
            );
        },
    };
    let i10 = match char_index_at_byte_exec(v.as_slice(), 0, n, 10) {
        Some(i) => i,
        None => {
            return None;
        },
    };
    proof {
        lemma_char_index_at_byte(v@, 10);
        assert(char_index_at_byte(v@, 10) == Some(i10 as int));
    }
    assert(v@.skip(i10 as int) =~= v@.subrange(i10 as int, n as int));
    let amount = match parse_amount_chars(v.as_slice(), i10, n) {
        Some(a) => a,
        None => {
            return Some(
                Err(
                    ParseError::InvalidAmount {
                        value: string_of_range(v.as_slice(), i10, n),
                        tag: "(amount field)",
                    },
                ),
            );
        },
    };
    Some(
        Ok(
            Balance {
                is_intermediate,
                debit_credit,
                date,
                currency: string_of_range(v.as_slice(), i7, i10),
                amount,
            },
        ),
    )
}

} // verus!
