//! The currently loaded set of transactions, and the totals over it.
//!
//! A store is an ordinary owned value: whoever shares it between threads puts
//! it behind a lock of its own choosing. Loading replaces the whole set; a
//! listing is an independent copy. Amounts are summed as they are stored, in
//! signed cents, so expenses recorded as negative amounts give a negative
//! total.
use vstd::prelude::*;
use vstd::string::*;
use crate::transaction::{views, Transaction, TransactionView};

verus! {

/// The sum of the amounts of the transactions whose type is `label`.
pub open spec fn sum_of_type(ts: Seq<TransactionView>, label: Seq<char>) -> int
    decreases ts.len(),
{
    if ts.len() == 0 {
        0
    } else {
        sum_of_type(ts.drop_last(), label) + if ts.last().transaction_type == label {
            ts.last().amount as int
        } else {
            0
        }
    }
}

pub open spec fn income_label() -> Seq<char> {
    seq!['I', 'n', 'c', 'o', 'm', 'e']
}

pub open spec fn expenses_label() -> Seq<char> {
    seq!['E', 'x', 'p', 'e', 'n', 's', 'e', 's']
}

/// Bound on a sum of `n` amounts, used to show that totals fit in an `i128`.
pub open spec fn amount_bound(n: int) -> int {
    n * 0x8000_0000_0000_0000
}

pub struct TransactionStore {
    transactions: Vec<Transaction>,
}

impl View for TransactionStore {
    type V = Seq<TransactionView>;

    closed spec fn view(&self) -> Seq<TransactionView> {
        views(self.transactions@)
    }
}

impl TransactionStore {
    /// An empty store.
    pub fn new() -> (r: TransactionStore)
        ensures
            r@ == Seq::<TransactionView>::empty(),
    {
        let r = TransactionStore { transactions: Vec::new() };
        assert(r@ =~= Seq::<TransactionView>::empty());
        r
    }

    /// Discards the held set and installs `transactions`; returns their number.
    pub fn replace(&mut self, transactions: Vec<Transaction>) -> (n: usize)
        ensures
            final(self)@ == views(transactions@),
            n == transactions@.len(),
    {
        self.transactions = transactions;
        self.transactions.len()
    }

    /// The number of transactions held.
    pub fn count(&self) -> (n: usize)
        ensures
            n == self@.len(),
    {
        self.transactions.len()
    }

    /// A copy of the held transactions, in order.
    pub fn list(&self) -> (r: Vec<Transaction>)
        ensures
            views(r@) == self@,
    {
        let mut r: Vec<Transaction> = Vec::new();
        let mut i: usize = 0;
        while i < self.transactions.len()
            invariant
                i <= self.transactions@.len(),
                r@.len() == i,
                views(r@) == views(self.transactions@).take(i as int),
            decreases self.transactions@.len() - i,
        {
            let t = self.transactions[i].clone();
            assert(t@ == self.transactions@[i as int]@);
            let ghost before = r@;
            r.push(t);
            assert(views(r@) =~= views(self.transactions@).take(i + 1)) by {
                assert(r@ == before.push(t));
                assert forall|k: int| 0 <= k < i + 1 implies #[trigger] views(r@)[k] == views(
                    self.transactions@,
                )[k] by {
                    if k < i {
                        assert(views(before)[k] == views(self.transactions@).take(i as int)[k]);
                    }
                }
            }
            i = i + 1;
        }
        assert(views(self.transactions@).take(i as int) =~= views(self.transactions@));
        r
    }

    /// The sum in cents of the amounts of the held transactions whose type is
    /// exactly `type_label`; zero where none is.
    pub fn sum_by_type(&self, type_label: &str) -> (cents: i128)
        ensures
            cents == sum_of_type(self@, type_label@),
    {
        let label = String::from_str(type_label);
        let ghost ts = self@;
        let mut total: i128 = 0;
        let mut i: usize = 0;
        while i < self.transactions.len()
            invariant
                ts == self@,
                ts == views(self.transactions@),
                label@ == type_label@,
                i <= ts.len(),
                total == sum_of_type(ts.take(i as int), type_label@),
                -amount_bound(i as int) <= total <= amount_bound(i as int),
            decreases ts.len() - i,
        {
            let t = &self.transactions[i];
            assert(ts.take(i + 1).drop_last() =~= ts.take(i as int));
            assert(ts[i as int] == t@);
            if t.transaction_type == label {
                assert(amount_bound(i + 1) == amount_bound(i as int) + 0x8000_0000_0000_0000);
                total = total + t.amount as i128;
            }
            i = i + 1;
        }
        assert(ts.take(i as int) =~= ts);
        total
    }

    /// The sum in cents of the `Income` transactions.
    pub fn income_cents(&self) -> (cents: i128)
        ensures
            cents == sum_of_type(self@, income_label()),
    {
        let r = self.sum_by_type("Income");
        proof {
            reveal_strlit("Income");
            assert("Income"@ =~= income_label());
        }
        r
    }

    /// The sum in cents of the `Expenses` transactions.
    pub fn expense_cents(&self) -> (cents: i128)
        ensures
            cents == sum_of_type(self@, expenses_label()),
    {
        let r = self.sum_by_type("Expenses");
        proof {
            reveal_strlit("Expenses");
            assert("Expenses"@ =~= expenses_label());
        }
        r
    }
}

} // verus!
