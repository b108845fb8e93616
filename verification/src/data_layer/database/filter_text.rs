//! Filters as a user writes them.
//!
//! A filter is written as conditions with `&` between them, each a column,
//! an operator and a value: `amount < 0 & date >= 2023-01-01`. Spaces around
//! a column and around a value do not count. What is written is read into
//! conditions: no part of it ever becomes the text of a statement.

use vstd::prelude::*;
use crate::data_layer::database::filter::{Column, Condition, ConditionView, Operator};
use crate::data_layer::models::{SqlValue, ValueView};
use crate::data_layer::text::{characters, same_text};

verus! {

/// Why a text is no filter.
#[derive(Debug, Clone, Copy, PartialEq, Eq, Structural)]
pub enum FilterError {
    /// A condition has none of `=`, `!=`, `<`, `<=`, `>`, `>=`.
    NoOperator,
    /// A condition names no column of a transaction.
    UnknownColumn,
    /// A condition on the amount gives no integer in the range of `i64`.
    BadNumber,
}

/// How many characters from the place `from` on are not `stop`, up to the
/// first that is.
pub open spec fn run(text: Seq<char>, from: int, stop: spec_fn(char) -> bool) -> nat
    decreases text.len() - from,
{
    if 0 <= from < text.len() && !stop(text[from]) {
        1 + run(text, from + 1, stop)
    } else {
        0
    }
}

/// The text without the spaces at its start.
pub open spec fn without_leading_spaces(text: Seq<char>) -> Seq<char>
    decreases text.len(),
{
    if text.len() > 0 && text[0] == ' ' {
        without_leading_spaces(text.drop_first())
    } else {
        text
    }
}

/// The text without the spaces at its end.
pub open spec fn without_trailing_spaces(text: Seq<char>) -> Seq<char>
    decreases text.len(),
{
    if text.len() > 0 && text.last() == ' ' {
        without_trailing_spaces(text.drop_last())
    } else {
        text
    }
}

/// The text without the spaces at its start and at its end.
pub open spec fn trimmed(text: Seq<char>) -> Seq<char> {
    without_trailing_spaces(without_leading_spaces(text))
}

/// Whether a character starts an operator.
pub open spec fn starts_operator(c: char) -> bool {
    c == '=' || c == '!' || c == '<' || c == '>'
}

/// The operator at the start of a text, with its length.
pub open spec fn operator_at(text: Seq<char>) -> Option<(Operator, nat)> {
    if text.len() >= 2 && text[0] == '<' && text[1] == '=' {
        Some((Operator::LessOrEqual, 2))
    } else if text.len() >= 2 && text[0] == '>' && text[1] == '=' {
        Some((Operator::GreaterOrEqual, 2))
    } else if text.len() >= 2 && text[0] == '!' && text[1] == '=' {
        Some((Operator::NotEqual, 2))
    } else if text.len() >= 1 && text[0] == '<' {
        Some((Operator::Less, 1))
    } else if text.len() >= 1 && text[0] == '>' {
        Some((Operator::Greater, 1))
    } else if text.len() >= 1 && text[0] == '=' {
        Some((Operator::Equal, 1))
    } else {
        None
    }
}

/// The column that a name stands for.
pub open spec fn column_named(name: Seq<char>) -> Option<Column> {
    if name == "id"@ {
        Some(Column::Id)
    } else if name == "date"@ {
        Some(Column::Date)
    } else if name == "amount"@ {
        Some(Column::Amount)
    } else if name == "memo"@ {
        Some(Column::Memo)
    } else if name == "account_id"@ {
        Some(Column::AccountId)
    } else if name == "payee_id"@ {
        Some(Column::PayeeId)
    } else if name == "category_id"@ {
        Some(Column::CategoryId)
    } else if name == "transfer_account_id"@ {
        Some(Column::TransferAccountId)
    } else if name == "transfer_transaction_id"@ {
        Some(Column::TransferTransactionId)
    } else if name == "matched_transaction_id"@ {
        Some(Column::MatchedTransactionId)
    } else {
        None
    }
}

/// Whether a character is a decimal digit.
pub open spec fn is_digit(c: char) -> bool {
    '0' <= c && c <= '9'
}

/// The number that decimal digits write.
pub open spec fn digits_value(digits: Seq<char>) -> nat
    decreases digits.len(),
{
    if digits.len() == 0 {
        0
    } else {
        digits_value(digits.drop_last()) * 10 + ((digits.last() as u32 - '0' as u32) as nat)
    }
}

/// Whether every character is a decimal digit.
pub open spec fn all_digits(digits: Seq<char>) -> bool {
    forall|i: int| 0 <= i < digits.len() ==> is_digit(#[trigger] digits[i])
}

/// The integer that a text writes: decimal digits, with a minus sign before
/// them for a negative number, and a value in the range of `i64`.
pub open spec fn integer_of(text: Seq<char>) -> Option<i64> {
    if text.len() > 0 && text[0] == '-' {
        let digits = text.drop_first();
        if digits.len() > 0 && all_digits(digits) && digits_value(digits) <= 0x8000_0000_0000_0000 {
            Some((-(digits_value(digits) as int)) as i64)
        } else {
            None
        }
    } else if text.len() > 0 && all_digits(text) && digits_value(text) <= 0x7fff_ffff_ffff_ffff {
        Some(digits_value(text) as i64)
    } else {
        None
    }
}

/// The condition that a text writes: a column before the first character
/// that starts an operator, the operator there, and the value behind it.
pub open spec fn condition_of(text: Seq<char>) -> Result<ConditionView, FilterError> {
    let at = run(text, 0, |c: char| starts_operator(c)) as int;
    match operator_at(text.skip(at)) {
        None => Err(FilterError::NoOperator),
        Some((operator, len)) => match column_named(trimmed(text.take(at))) {
            None => Err(FilterError::UnknownColumn),
            Some(column) => {
                let value = trimmed(text.skip(at + len));
                if column == Column::Amount {
                    match integer_of(value) {
                        Some(amount) => Ok(
                            ConditionView { column, operator, value: ValueView::Integer(amount) },
                        ),
                        None => Err(FilterError::BadNumber),
                    }
                } else {
                    Ok(ConditionView { column, operator, value: ValueView::String(value) })
                }
            },
        },
    }
}

/// The conditions that a text writes from the place `from` on, with `&`
/// between them; the first that is none decides the error.
pub open spec fn conditions_from(
    text: Seq<char>,
    from: int,
) -> Result<Seq<ConditionView>, FilterError>
    decreases text.len() - from,
{
    let len = run(text, from, |c: char| c == '&') as int;
    let first = condition_of(text.subrange(from, from + len));
    if from < 0 || from + len > text.len() {
        Ok(Seq::empty())
    } else if from + len == text.len() {
        match first {
            Ok(c) => Ok(seq![c]),
            Err(e) => Err(e),
        }
    } else {
        match first {
            Err(e) => Err(e),
            Ok(c) => match conditions_from(text, from + len + 1) {
                Ok(rest) => Ok(seq![c] + rest),
                Err(e) => Err(e),
            },
        }
    }
}

/// The filter that a text writes. Nothing but spaces is the empty filter.
pub open spec fn filter_of(text: Seq<char>) -> Result<Seq<ConditionView>, FilterError> {
    if trimmed(text).len() == 0 {
        Ok(Seq::empty())
    } else {
        conditions_from(text, 0)
    }
}

/// Where the part of `chars` between `from` and `to` starts and ends once
/// the spaces at its start and at its end are left out.
fn trim(chars: &Vec<char>, from: usize, to: usize) -> (r: (usize, usize))
    requires
        from <= to <= chars.len(),
    ensures
        from <= r.0 <= r.1 <= to,
        chars@.subrange(r.0 as int, r.1 as int) == trimmed(chars@.subrange(from as int, to as int)),
{
    let mut a = from;
    while a < to && chars[a] == ' '
        invariant
            from <= a <= to <= chars.len(),
            without_leading_spaces(chars@.subrange(from as int, to as int))
                == without_leading_spaces(chars@.subrange(a as int, to as int)),
        decreases to - a,
    {
        proof {
            let part = chars@.subrange(a as int, to as int);
            assert(part[0] == chars@[a as int]);
            assert(part.drop_first() =~= chars@.subrange(a as int + 1, to as int));
        }
        a += 1;
    }
    proof {
        let part = chars@.subrange(a as int, to as int);
        if a < to {
            assert(part[0] == chars@[a as int]);
        }
        assert(without_leading_spaces(part) == part);
    }
    let mut b = to;
    while b > a && chars[b - 1] == ' '
        invariant
            a <= b <= to <= chars.len(),
            without_trailing_spaces(chars@.subrange(a as int, to as int))
                == without_trailing_spaces(chars@.subrange(a as int, b as int)),
        decreases b - a,
    {
        proof {
            let part = chars@.subrange(a as int, b as int);
            assert(part.last() == chars@[b - 1]);
            assert(part.drop_last() =~= chars@.subrange(a as int, b - 1));
        }
        b -= 1;
    }
    proof {
        let part = chars@.subrange(a as int, b as int);
        if a < b {
            assert(part.last() == chars@[b - 1]);
        }
        assert(without_trailing_spaces(part) == part);
    }
    (a, b)
}

/// Reads the name of a column.
fn column_of(name: &str) -> (column: Option<Column>)
    ensures
        column == column_named(name@),
{
    if same_text(name, "id") {
        Some(Column::Id)
    } else if same_text(name, "date") {
        Some(Column::Date)
    } else if same_text(name, "amount") {
        Some(Column::Amount)
    } else if same_text(name, "memo") {
        Some(Column::Memo)
    } else if same_text(name, "account_id") {
        Some(Column::AccountId)
    } else if same_text(name, "payee_id") {
        Some(Column::PayeeId)
    } else if same_text(name, "category_id") {
        Some(Column::CategoryId)
    } else if same_text(name, "transfer_account_id") {
        Some(Column::TransferAccountId)
    } else if same_text(name, "transfer_transaction_id") {
        Some(Column::TransferTransactionId)
    } else if same_text(name, "matched_transaction_id") {
        Some(Column::MatchedTransactionId)
    } else {
        None
    }
}

/// The number that longer digits write is no smaller.
proof fn lemma_digits_grow(digits: Seq<char>, k: int)
    requires
        0 <= k <= digits.len(),
        all_digits(digits),
    ensures
        digits_value(digits.take(k)) <= digits_value(digits),
    decreases digits.len() - k,
{
    if k < digits.len() {
        let next = digits.take(k + 1);
        assert(next.drop_last() =~= digits.take(k));
        assert(next.last() == digits[k]);
        assert(is_digit(digits[k]));
        lemma_digits_grow(digits, k + 1);
    } else {
        assert(digits.take(k) =~= digits);
    }
}

/// Reads the number that the digits between `from` and `to` write, where it
/// is at most `limit`.
fn number_of(chars: &Vec<char>, from: usize, to: usize, limit: u64) -> (n: Option<u64>)
    requires
        from <= to <= chars.len(),
        limit >= 9,
    ensures
        ({
            let digits = chars@.subrange(from as int, to as int);
            n == (if all_digits(digits) && digits_value(digits) <= limit {
                Some(digits_value(digits) as u64)
            } else {
                None
            })
        }),
{
    let ghost digits = chars@.subrange(from as int, to as int);
    let mut value: u64 = 0;
    let mut i = from;
    proof {
        assert(digits.take(0) =~= Seq::<char>::empty());
    }
    while i < to
        invariant
            from <= i <= to <= chars.len(),
            digits == chars@.subrange(from as int, to as int),
            all_digits(digits.take(i - from)),
            value == digits_value(digits.take(i - from)),
            value <= limit,
            limit >= 9,
        decreases to - i,
    {
        let c = chars[i];
        proof {
            assert(digits[i - from] == c);
        }
        if !('0' <= c && c <= '9') {
            proof {
                assert(!is_digit(digits[i - from]));
            }
            return None;
        }
        let d: u64 = (c as u32 - '0' as u32) as u64;
        proof {
            let next = digits.take(i - from + 1);
            assert(next.drop_last() =~= digits.take(i - from));
            assert(next.last() == c);
            assert forall|k: int| 0 <= k < next.len() implies is_digit(#[trigger] next[k]) by {
                if k < i - from {
                    assert(next[k] == digits.take(i - from)[k]);
                }
            }
            assert(digits_value(next) == value * 10 + d);
        }
        if value > (limit - d) / 10 {
            proof {
                let next = digits.take(i - from + 1);
                assert(digits_value(next) > limit);
                if all_digits(digits) {
                    lemma_digits_grow(digits, i - from + 1);
                }
            }
            return None;
        }
        value = value * 10 + d;
        i += 1;
    }
    proof {
        assert(digits.take(to - from) =~= digits);
    }
    Some(value)
}

/// Reads the integer that the text between `from` and `to` writes.
fn integer_between(chars: &Vec<char>, from: usize, to: usize) -> (n: Option<i64>)
    requires
        from <= to <= chars.len(),
    ensures
        n == integer_of(chars@.subrange(from as int, to as int)),
{
    let ghost text = chars@.subrange(from as int, to as int);
    if from < to && chars[from] == '-' {
        proof {
            assert(text[0] == chars@[from as int]);
            assert(text.drop_first() =~= chars@.subrange(from + 1, to as int));
        }
        if from + 1 == to {
            return None;
        }
        match number_of(chars, from + 1, to, 0x8000_0000_0000_0000) {
            None => None,
            Some(n) => {
                if n == 0x8000_0000_0000_0000 {
                    Some(i64::MIN)
                } else {
                    Some(-(n as i64))
                }
            },
        }
    } else {
        proof {
            if from < to {
                assert(text[0] == chars@[from as int]);
            }
        }
        if from == to {
            return None;
        }
        match number_of(chars, from, to, 0x7fff_ffff_ffff_ffff) {
            None => None,
            Some(n) => Some(n as i64),
        }
    }
}

/// Reads the condition that the part of a text between `from` and `to`
/// writes. `chars` holds the characters of `text`.
fn condition_between(
    text: &str,
    chars: &Vec<char>,
    from: usize,
    to: usize,
) -> (r: Result<Condition, FilterError>)
    requires
        chars@ == text@,
        from <= to <= chars.len(),
    ensures
        match r {
            Ok(c) => condition_of(text@.subrange(from as int, to as int)) == Ok::<
                ConditionView,
                FilterError,
            >(c@),
            Err(e) => condition_of(text@.subrange(from as int, to as int)) == Err::<
                ConditionView,
                FilterError,
            >(e),
        },
{
    let ghost part = text@.subrange(from as int, to as int);
    let ghost stop = |c: char| starts_operator(c);
    let mut at = from;
    while at < to && !(chars[at] == '=' || chars[at] == '!' || chars[at] == '<' || chars[at] == '>')
        invariant
            from <= at <= to <= chars.len(),
            chars@ == text@,
            part == text@.subrange(from as int, to as int),
            stop == |c: char| starts_operator(c),
            run(part, 0, stop) == (at - from) + run(part, at - from, stop),
        decreases to - at,
    {
        proof {
            assert(part[at - from] == chars@[at as int]);
            assert(!stop(part[at - from]));
        }
        at += 1;
    }
    proof {
        if at < to {
            assert(part[at - from] == chars@[at as int]);
            assert(stop(part[at - from]));
        }
        assert(run(part, 0, stop) == at - from);
        assert(part.skip(at - from) =~= text@.subrange(at as int, to as int));
        assert(part.take(at - from) =~= text@.subrange(from as int, at as int));
        if at < to {
            assert(part.skip(at - from)[0] == chars@[at as int]);
        }
        if at + 1 < to {
            assert(part.skip(at - from)[1] == chars@[at + 1]);
        }
    }
    if at == to {
        return Err(FilterError::NoOperator);
    }
    let two = at + 1 < to && chars[at + 1] == '=';
    let (operator, len): (Operator, usize) = if two && chars[at] == '<' {
        (Operator::LessOrEqual, 2)
    } else if two && chars[at] == '>' {
        (Operator::GreaterOrEqual, 2)
    } else if two && chars[at] == '!' {
        (Operator::NotEqual, 2)
    } else if chars[at] == '<' {
        (Operator::Less, 1)
    } else if chars[at] == '>' {
        (Operator::Greater, 1)
    } else if chars[at] == '=' {
        (Operator::Equal, 1)
    } else {
        return Err(FilterError::NoOperator);
    };
    proof {
        assert(operator_at(part.skip(at - from)) == Some((operator, len as nat)));
        assert(part.skip(at - from + len) =~= text@.subrange(at + len, to as int));
    }
    let (name_from, name_to) = trim(chars, from, at);
    let column = match column_of(text.substring_char(name_from, name_to)) {
        None => {
            return Err(FilterError::UnknownColumn);
        },
        Some(column) => column,
    };
    let (value_from, value_to) = trim(chars, at + len, to);
    match column {
        Column::Amount => match integer_between(chars, value_from, value_to) {
            Some(amount) => Ok(Condition { column, operator, value: SqlValue::Integer(amount) }),
            None => Err(FilterError::BadNumber),
        },
        _ => Ok(
            Condition {
                column,
                operator,
                value: SqlValue::String(text.substring_char(value_from, value_to).to_owned()),
            },
        ),
    }
}

/// Reads the filter that a text writes.
pub fn parse_filter(text: &str) -> (r: Result<Vec<Condition>, FilterError>)
    ensures
        match r {
            Ok(filter) => filter_of(text@) == Ok::<Seq<ConditionView>, FilterError>(
                crate::data_layer::database::filter::condition_views(filter@),
            ),
            Err(e) => filter_of(text@) == Err::<Seq<ConditionView>, FilterError>(e),
        },
{
    let chars = characters(text);
    let n = chars.len();
    proof {
        assert(text@.subrange(0, n as int) =~= text@);
    }
    let (a, b) = trim(&chars, 0, n);
    let mut filter: Vec<Condition> = Vec::new();
    if a == b {
        proof {
            assert(crate::data_layer::database::filter::condition_views(filter@) =~= Seq::empty());
        }
        return Ok(filter);
    }
    let ghost amp = |c: char| c == '&';
    let mut from: usize = 0;
    proof {
        match conditions_from(text@, 0) {
            Ok(rest) => {
                assert(crate::data_layer::database::filter::condition_views(filter@) + rest
                    =~= rest);
            },
            Err(_) => {},
        }
    }
    loop
        invariant
            from <= n,
            n == chars.len(),
            chars@ == text@,
            amp == |c: char| c == '&',
            trimmed(text@).len() > 0,
            match conditions_from(text@, from as int) {
                Ok(rest) => conditions_from(text@, 0) == Ok::<Seq<ConditionView>, FilterError>(
                    crate::data_layer::database::filter::condition_views(filter@) + rest,
                ),
                Err(e) => conditions_from(text@, 0) == Err::<Seq<ConditionView>, FilterError>(e),
            },
        decreases n - from,
    {
        let mut to = from;
        while to < n && chars[to] != '&'
            invariant
                from <= to <= n,
                n == chars.len(),
                chars@ == text@,
                amp == |c: char| c == '&',
                run(text@, from as int, amp) == (to - from) + run(text@, to as int, amp),
            decreases n - to,
        {
            proof {
                assert(!amp(text@[to as int]));
            }
            to += 1;
        }
        proof {
            if to < n {
                assert(amp(text@[to as int]));
            }
            assert(run(text@, from as int, amp) == to - from);
        }
        let ghost before = crate::data_layer::database::filter::condition_views(filter@);
        match condition_between(text, &chars, from, to) {
            Err(e) => {
                return Err(e);
            },
            Ok(c) => {
                filter.push(c);
                proof {
                    assert(crate::data_layer::database::filter::condition_views(filter@)
                        =~= before.push(c@));
                }
            },
        }
        if to == n {
            proof {
                let last = crate::data_layer::database::filter::condition_views(filter@);
                assert(before + seq![last.last()] =~= last);
            }
            return Ok(filter);
        }
        proof {
            let now = crate::data_layer::database::filter::condition_views(filter@);
            match conditions_from(text@, to + 1) {
                Ok(rest) => {
                    assert(before + (seq![now.last()] + rest) =~= now + rest);
                },
                Err(_) => {},
            }
        }
        from = to + 1;
    }
}

} // verus!
