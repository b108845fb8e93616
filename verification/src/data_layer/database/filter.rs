//! Structured filters over transactions: conditions on known columns, with
//! the value to compare against kept apart from the column and the operator.

use vstd::prelude::*;
use crate::data_layer::models::transaction::{Transaction, TransactionView};
use crate::data_layer::models::{SqlValue, ValueView, opt_value};

verus! {

/// The columns of a transaction that a condition may name.
#[derive(Debug, Clone, Copy, PartialEq, Eq, Structural)]
pub enum Column {
    Id,
    Date,
    Amount,
    Memo,
    AccountId,
    PayeeId,
    CategoryId,
    TransferAccountId,
    TransferTransactionId,
    MatchedTransactionId,
}

/// How a column is compared with a value.
#[derive(Debug, Clone, Copy, PartialEq, Eq, Structural)]
pub enum Operator {
    Equal,
    NotEqual,
    Less,
    LessOrEqual,
    Greater,
    GreaterOrEqual,
}

/// One condition: a column, an operator and the value to compare with.
#[derive(Debug, PartialEq, Eq)]
pub struct Condition {
    pub column: Column,
    pub operator: Operator,
    pub value: SqlValue,
}

/// A [`Condition`] as a mathematical value.
pub struct ConditionView {
    pub column: Column,
    pub operator: Operator,
    pub value: ValueView,
}

impl View for Condition {
    type V = ConditionView;

    open spec fn view(&self) -> ConditionView {
        ConditionView { column: self.column, operator: self.operator, value: self.value@ }
    }
}

/// The conditions of a list as mathematical values.
pub open spec fn condition_views(filter: Seq<Condition>) -> Seq<ConditionView> {
    filter.map_values(|c: Condition| c@)
}

/// How two byte strings stand to each other in the order of a dictionary:
/// negative where `a` comes first, zero where they are equal, positive where
/// `b` comes first.
pub open spec fn bytes_order(a: Seq<u8>, b: Seq<u8>) -> int
    decreases a.len(),
{
    if a.len() == 0 && b.len() == 0 {
        0
    } else if a.len() == 0 {
        -1
    } else if b.len() == 0 {
        1
    } else if a[0] < b[0] {
        -1
    } else if a[0] > b[0] {
        1
    } else {
        bytes_order(a.drop_first(), b.drop_first())
    }
}

/// How two strings stand to each other: by their UTF-8 bytes, in the order
/// of a dictionary.
pub open spec fn text_order(a: Seq<char>, b: Seq<char>) -> int {
    bytes_order(vstd::utf8::encode_utf8(a), vstd::utf8::encode_utf8(b))
}

/// Whether an order, given as a sign, meets an operator.
pub open spec fn meets(order: int, operator: Operator) -> bool {
    match operator {
        Operator::Equal => order == 0,
        Operator::NotEqual => order != 0,
        Operator::Less => order < 0,
        Operator::LessOrEqual => order <= 0,
        Operator::Greater => order > 0,
        Operator::GreaterOrEqual => order >= 0,
    }
}

/// What a transaction holds in a column.
pub open spec fn cell(t: TransactionView, column: Column) -> ValueView {
    match column {
        Column::Id => ValueView::String(t.id),
        Column::Date => ValueView::String(t.date),
        Column::Amount => ValueView::Integer(t.amount),
        Column::Memo => opt_value(t.memo),
        Column::AccountId => ValueView::String(t.account_id),
        Column::PayeeId => opt_value(t.payee_id),
        Column::CategoryId => opt_value(t.category_id),
        Column::TransferAccountId => opt_value(t.transfer_account_id),
        Column::TransferTransactionId => opt_value(t.transfer_transaction_id),
        Column::MatchedTransactionId => opt_value(t.matched_transaction_id),
    }
}

/// Whether a transaction meets a condition. Integers are compared as
/// numbers and strings by their bytes; a null on either side, or values of
/// two different kinds, meet no condition.
pub open spec fn holds(c: ConditionView, t: TransactionView) -> bool {
    match (cell(t, c.column), c.value) {
        (ValueView::Integer(a), ValueView::Integer(b)) => meets(a - b, c.operator),
        (ValueView::String(a), ValueView::String(b)) => meets(text_order(a, b), c.operator),
        _ => false,
    }
}

/// Whether a transaction meets every condition of a filter.
pub open spec fn all_hold(filter: Seq<ConditionView>, t: TransactionView) -> bool {
    forall|i: int| 0 <= i < filter.len() ==> holds(#[trigger] filter[i], t)
}

/// The sign of the order of two byte strings.
fn order_of_bytes(a: &[u8], b: &[u8]) -> (sign: i8)
    ensures
        sign == 0 <==> bytes_order(a@, b@) == 0,
        sign < 0 <==> bytes_order(a@, b@) < 0,
        sign > 0 <==> bytes_order(a@, b@) > 0,
{
    let mut i: usize = 0;
    proof {
        assert(a@.skip(0) =~= a@);
        assert(b@.skip(0) =~= b@);
    }
    while i < a.len() && i < b.len()
        invariant
            i <= a.len(),
            i <= b.len(),
            bytes_order(a@, b@) == bytes_order(a@.skip(i as int), b@.skip(i as int)),
        decreases a.len() - i,
    {
        proof {
            assert(a@.skip(i as int)[0] == a@[i as int]);
            assert(b@.skip(i as int)[0] == b@[i as int]);
            assert(a@.skip(i as int).drop_first() =~= a@.skip(i as int + 1));
            assert(b@.skip(i as int).drop_first() =~= b@.skip(i as int + 1));
        }
        if a[i] < b[i] {
            return -1;
        }
        if a[i] > b[i] {
            return 1;
        }
        i += 1;
    }
    if i < b.len() {
        -1
    } else if i < a.len() {
        1
    } else {
        0
    }
}

/// Whether a sign meets an operator.
fn sign_meets(sign: i8, operator: Operator) -> (b: bool)
    ensures
        b == meets(sign as int, operator),
{
    match operator {
        Operator::Equal => sign == 0,
        Operator::NotEqual => sign != 0,
        Operator::Less => sign < 0,
        Operator::LessOrEqual => sign <= 0,
        Operator::Greater => sign > 0,
        Operator::GreaterOrEqual => sign >= 0,
    }
}

/// Whether a string, where there is one, meets an operator against a value.
fn text_meets(cell: Option<&str>, operator: Operator, value: &SqlValue) -> (b: bool)
    ensures
        b == (match (cell, value@) {
            (Some(a), ValueView::String(b)) => meets(text_order(a@, b), operator),
            _ => false,
        }),
{
    match (cell, value) {
        (Some(a), SqlValue::String(b)) => {
            let sign = order_of_bytes(a.as_bytes(), b.as_str().as_bytes());
            let met = sign_meets(sign, operator);
            proof {
                let order = text_order(a@, b@);
                assert(meets(order, operator) == meets(sign as int, operator));
            }
            met
        },
        _ => false,
    }
}

/// The string slice in an optional string.
fn as_text(o: &Option<String>) -> (s: Option<&str>)
    ensures
        match s {
            Some(t) => crate::data_layer::text::opt_text(*o) == Some(t@),
            None => *o is None,
        },
{
    match o {
        Some(s) => Some(s.as_str()),
        None => None,
    }
}

impl Condition {
    /// Whether a transaction meets the condition.
    pub fn holds_for(&self, t: &Transaction) -> (b: bool)
        ensures
            b == holds(self@, t@),
    {
        match self.column {
            Column::Amount => match &self.value {
                SqlValue::Integer(v) => {
                    let sign: i8 = if t.amount < *v {
                        -1
                    } else if t.amount > *v {
                        1
                    } else {
                        0
                    };
                    let met = sign_meets(sign, self.operator);
                    proof {
                        assert(meets(t.amount - *v, self.operator) == meets(
                            sign as int,
                            self.operator,
                        ));
                    }
                    met
                },
                _ => false,
            },
            Column::Id => text_meets(Some(t.id.as_str()), self.operator, &self.value),
            Column::Date => text_meets(Some(t.date.as_str()), self.operator, &self.value),
            Column::AccountId => text_meets(Some(t.account_id.as_str()), self.operator, &self.value),
            Column::Memo => text_meets(as_text(&t.memo), self.operator, &self.value),
            Column::PayeeId => text_meets(as_text(&t.payee_id), self.operator, &self.value),
            Column::CategoryId => text_meets(as_text(&t.category_id), self.operator, &self.value),
            Column::TransferAccountId => text_meets(
                as_text(&t.transfer_account_id),
                self.operator,
                &self.value,
            ),
            Column::TransferTransactionId => text_meets(
                as_text(&t.transfer_transaction_id),
                self.operator,
                &self.value,
            ),
            Column::MatchedTransactionId => text_meets(
                as_text(&t.matched_transaction_id),
                self.operator,
                &self.value,
            ),
        }
    }
}

/// Whether a transaction meets every condition of a filter.
pub fn meets_all(filter: &Vec<Condition>, t: &Transaction) -> (b: bool)
    ensures
        b == all_hold(condition_views(filter@), t@),
{
    let mut i: usize = 0;
    while i < filter.len()
        invariant
            i <= filter.len(),
            forall|k: int| 0 <= k < i ==> holds(#[trigger] condition_views(filter@)[k], t@),
        decreases filter.len() - i,
    {
        if !filter[i].holds_for(t) {
            proof {
                assert(condition_views(filter@)[i as int] == filter@[i as int]@);
            }
            return false;
        }
        proof {
            assert(condition_views(filter@)[i as int] == filter@[i as int]@);
        }
        i += 1;
    }
    true
}

} // verus!
