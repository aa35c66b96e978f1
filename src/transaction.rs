//! One ledger entry, and how a row of an export becomes one.
//!
//! Columns are read by position: date, description, amount, account,
//! transaction type, category, sub-category, hidden. A missing column reads as
//! empty text, an amount that is not a decimal as zero cents, and a hidden
//! flag other than `true` as `false`. Extra columns are ignored.
use vstd::prelude::*;
use vstd::string::*;
use crate::amount::{amount_cents, parse_cents};

verus! {

/// A ledger entry; `amount` is in cents.
pub struct Transaction {
    pub date: String,
    pub description: String,
    pub amount: i64,
    pub account_name: String,
    pub category: String,
    pub transaction_type: String,
    pub sub_category: String,
    pub hidden: bool,
}

/// What a `Transaction` holds, with its texts as character sequences.
pub struct TransactionView {
    pub date: Seq<char>,
    pub description: Seq<char>,
    pub amount: i64,
    pub account_name: Seq<char>,
    pub category: Seq<char>,
    pub transaction_type: Seq<char>,
    pub sub_category: Seq<char>,
    pub hidden: bool,
}

impl View for Transaction {
    type V = TransactionView;

    open spec fn view(&self) -> TransactionView {
        TransactionView {
            date: self.date@,
            description: self.description@,
            amount: self.amount,
            account_name: self.account_name@,
            category: self.category@,
            transaction_type: self.transaction_type@,
            sub_category: self.sub_category@,
            hidden: self.hidden,
        }
    }
}

impl Clone for Transaction {
    fn clone(&self) -> (r: Self)
        ensures
            r@ == self@,
    {
        Transaction {
            date: self.date.clone(),
            description: self.description.clone(),
            amount: self.amount,
            account_name: self.account_name.clone(),
            category: self.category.clone(),
            transaction_type: self.transaction_type.clone(),
            sub_category: self.sub_category.clone(),
            hidden: self.hidden,
        }
    }
}

/// The views of a sequence of transactions.
pub open spec fn views(ts: Seq<Transaction>) -> Seq<TransactionView> {
    ts.map_values(|t: Transaction| t@)
}

/// The text of column `i` of a row, empty where the row is shorter.
pub open spec fn column(row: Seq<String>, i: int) -> Seq<char> {
    if 0 <= i < row.len() {
        row[i]@
    } else {
        Seq::empty()
    }
}

pub open spec fn true_text() -> Seq<char> {
    seq!['t', 'r', 'u', 'e']
}

/// The hidden flag of a row: set only where its eighth column reads `true`.
pub open spec fn hidden_flag(row: Seq<String>) -> bool {
    column(row, 7) == true_text()
}

/// The transaction that a row denotes.
pub open spec fn row_transaction(row: Seq<String>) -> TransactionView {
    TransactionView {
        date: column(row, 0),
        description: column(row, 1),
        amount: amount_cents(column(row, 2)),
        account_name: column(row, 3),
        transaction_type: column(row, 4),
        category: column(row, 5),
        sub_category: column(row, 6),
        hidden: hidden_flag(row),
    }
}

fn column_text(row: &Vec<String>, i: usize) -> (r: String)
    ensures
        r@ == column(row@, i as int),
{
    if i < row.len() {
        row[i].clone()
    } else {
        String::new()
    }
}

/// Reads a `true` or `false` flag; anything else is `false`.
fn parse_flag(s: &str) -> (r: bool)
    ensures
        r == (s@ == true_text()),
{
    if s.unicode_len() != 4 {
        return false;
    }
    let r = s.get_char(0) == 't' && s.get_char(1) == 'r' && s.get_char(2) == 'u' && s.get_char(3)
        == 'e';
    assert(r ==> s@ =~= true_text());
    r
}

/// Builds the transaction that a row denotes.
pub fn build_transaction(row: &Vec<String>) -> (t: Transaction)
    ensures
        t@ == row_transaction(row@),
{
    let amount = match row.len() > 2 {
        true => match parse_cents(row[2].as_str()) {
            Some(c) => c,
            None => 0,
        },
        false => 0,
    };
    let flag = column_text(row, 7);
    Transaction {
        date: column_text(row, 0),
        description: column_text(row, 1),
        amount,
        account_name: column_text(row, 3),
        category: column_text(row, 5),
        transaction_type: column_text(row, 4),
        sub_category: column_text(row, 6),
        hidden: parse_flag(flag.as_str()),
    }
}

} // verus!
