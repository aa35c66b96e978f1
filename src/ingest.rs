//! Turning the rows of an export into transactions.
//!
//! The first row is a header and is dropped whatever it holds; every later
//! row becomes one transaction, in order. The rows can be handed over one at
//! a time as they are read, so that a large export need not be held whole.
use vstd::prelude::*;
use crate::transaction::{build_transaction, row_transaction, views, Transaction, TransactionView};

verus! {

/// The transactions that a sequence of rows denotes: all but the header.
pub open spec fn data_transactions(rows: Seq<Seq<String>>) -> Seq<TransactionView> {
    if rows.len() == 0 {
        Seq::empty()
    } else {
        rows.drop_first().map_values(|row: Seq<String>| row_transaction(row))
    }
}

/// Collects transactions from rows handed over one at a time.
pub struct Ingestor {
    header_seen: bool,
    transactions: Vec<Transaction>,
}

impl Ingestor {
    /// Whether the header row has been handed over yet.
    pub closed spec fn header_seen(&self) -> bool {
        self.header_seen
    }

    /// The transactions collected so far.
    pub closed spec fn collected(&self) -> Seq<TransactionView> {
        views(self.transactions@)
    }

    pub fn new() -> (r: Ingestor)
        ensures
            !r.header_seen(),
            r.collected() == Seq::<TransactionView>::empty(),
    {
        let r = Ingestor { header_seen: false, transactions: Vec::new() };
        assert(r.collected() =~= Seq::<TransactionView>::empty());
        r
    }

    /// Takes the next row: the first is the header and is dropped, each later
    /// one adds its transaction.
    pub fn push_row(&mut self, row: &Vec<String>)
        ensures
            final(self).header_seen(),
            !old(self).header_seen() ==> final(self).collected() == old(self).collected(),
            old(self).header_seen() ==> final(self).collected() == old(self).collected().push(
                row_transaction(row@),
            ),
    {
        if !self.header_seen {
            self.header_seen = true;
        } else {
            let t = build_transaction(row);
            self.transactions.push(t);
            assert(views(self.transactions@) =~= views(old(self).transactions@).push(
                row_transaction(row@),
            ));
        }
    }

    /// The transactions collected, in the order of their rows.
    pub fn finish(self) -> (r: Vec<Transaction>)
        ensures
            views(r@) == self.collected(),
    {
        self.transactions
    }
}

/// The transactions of a whole sequence of rows, header first.
pub fn ingest_rows(rows: &Vec<Vec<String>>) -> (r: Vec<Transaction>)
    ensures
        views(r@) == data_transactions(rows@.map_values(|row: Vec<String>| row@)),
{
    let ghost rs = rows@.map_values(|row: Vec<String>| row@);
    let mut ingestor = Ingestor::new();
    let mut i: usize = 0;
    while i < rows.len()
        invariant
            i <= rows@.len(),
            rs == rows@.map_values(|row: Vec<String>| row@),
            ingestor.header_seen() == (i > 0),
            ingestor.collected() == data_transactions(rs.take(i as int)),
        decreases rows@.len() - i,
    {
        ingestor.push_row(&rows[i]);
        proof {
            let before = rs.take(i as int);
            let after = rs.take(i + 1);
            if i > 0 {
                assert(after.drop_first() =~= before.drop_first().push(rs[i as int]));
                assert(data_transactions(after) =~= data_transactions(before).push(
                    row_transaction(rs[i as int]),
                ));
            } else {
                assert(data_transactions(after) =~= Seq::<TransactionView>::empty());
            }
        }
        i = i + 1;
    }
    assert(rs.take(rows@.len() as int) =~= rs);
    ingestor.finish()
}

} // verus!
