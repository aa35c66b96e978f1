//! Properties that relate loading, the store and the totals.
use vstd::prelude::*;
use crate::amount::{
    amount_cents,
    digits_value,
    fraction_digit,
    fraction_digits,
    is_decimal,
    is_negative,
    whole_digits,
};
use crate::ingest::data_transactions;
use crate::store::{sum_of_type, TransactionStore};
use crate::transaction::{column, row_transaction, true_text, views, Transaction};

verus! {

pub open spec fn pow10(k: nat) -> int
    decreases k,
{
    if k == 0 {
        1
    } else {
        10 * pow10((k - 1) as nat)
    }
}

/// The exact value of a decimal text in hundredths, for a text with at most
/// two digits after the point: all its digits read as one number, scaled up.
pub open spec fn exact_hundredths(s: Seq<char>) -> int {
    let f = fraction_digits(s);
    let m = digits_value(whole_digits(s) + f) * pow10((2 - f.len()) as nat);
    if is_negative(s) {
        -m
    } else {
        m
    }
}

/// A decimal text that is a whole number of cents that fits in an `i64`.
pub open spec fn is_cent_exact(s: Seq<char>) -> bool {
    &&& is_decimal(s)
    &&& fraction_digits(s).len() <= 2
    &&& -i64::MAX <= exact_hundredths(s) <= i64::MAX
}

/// The exact total in hundredths of the amounts of the rows whose type
/// column is `label`, read from the rows themselves.
pub open spec fn source_total(rows: Seq<Seq<String>>, label: Seq<char>) -> int
    decreases rows.len(),
{
    if rows.len() == 0 {
        0
    } else {
        source_total(rows.drop_last(), label) + if column(rows.last(), 4) == label {
            exact_hundredths(column(rows.last(), 2))
        } else {
            0
        }
    }
}

proof fn lemma_cent_exact_amount(s: Seq<char>)
    requires
        is_cent_exact(s),
    ensures
        amount_cents(s) == exact_hundredths(s),
{
    let w = whole_digits(s);
    let f = fraction_digits(s);
    reveal_with_fuel(pow10, 3);
    assert(fraction_digit(f, 2) == 0);
    let m = digits_value(w + f) * pow10((2 - f.len()) as nat);
    if f.len() == 0 {
        assert(w + f =~= w);
        assert(pow10(2) == 100);
        assert(m == digits_value(w) * 100);
    } else if f.len() == 1 {
        assert((w + f).drop_last() =~= w);
        assert((w + f).last() == f[0]);
        assert(pow10(1) == 10);
        let x = digits_value(w + f);
        assert(x == digits_value(w) * 10 + fraction_digit(f, 0));
        assert(m == digits_value(w) * 100 + fraction_digit(f, 0) * 10) by (nonlinear_arith)
            requires
                m == x * 10,
                x == digits_value(w) * 10 + fraction_digit(f, 0),
        ;
    } else {
        let w1 = w + seq![f[0]];
        assert((w + f).drop_last() =~= w1);
        assert((w + f).last() == f[1]);
        assert(w1.drop_last() =~= w);
        assert(w1.last() == f[0]);
        assert(pow10(0) == 1);
        assert(digits_value(w1) == digits_value(w) * 10 + fraction_digit(f, 0));
        assert(m == digits_value(w) * 100 + fraction_digit(f, 0) * 10 + fraction_digit(f, 1));
    }
}

/// Header row plus `N` data rows give exactly `N` transactions, so a store
/// loaded with them counts `N`; no rows at all give none.
pub proof fn law_one_transaction_per_data_row(rows: Seq<Seq<String>>, loaded: Seq<Transaction>)
    requires
        views(loaded) == data_transactions(rows),
    ensures
        rows.len() >= 1 ==> views(loaded).len() == rows.len() - 1,
        rows.len() == 0 ==> views(loaded).len() == 0,
{
}

/// Where every row of the given type holds an amount of whole cents, the
/// total of that type over the loaded transactions is exactly the sum of
/// those amounts as written in the rows.
pub proof fn law_total_matches_source(data_rows: Seq<Seq<String>>, label: Seq<char>)
    requires
        forall|i: int|
            0 <= i < data_rows.len() && column(#[trigger] data_rows[i], 4) == label
                ==> is_cent_exact(column(data_rows[i], 2)),
    ensures
        sum_of_type(data_rows.map_values(|row: Seq<String>| row_transaction(row)), label)
            == source_total(data_rows, label),
    decreases data_rows.len(),
{
    if data_rows.len() > 0 {
        let rest = data_rows.drop_last();
        assert forall|i: int|
            0 <= i < rest.len() && column(#[trigger] rest[i], 4) == label implies is_cent_exact(
            column(rest[i], 2),
        ) by {
            assert(rest[i] == data_rows[i]);
        }
        law_total_matches_source(rest, label);
        let all = data_rows.map_values(|row: Seq<String>| row_transaction(row));
        assert(all.drop_last() =~= rest.map_values(|row: Seq<String>| row_transaction(row)));
        let last = data_rows.last();
        assert(last == data_rows[data_rows.len() - 1]);
        if column(last, 4) == label {
            lemma_cent_exact_amount(column(last, 2));
        }
    }
}

/// The same, from the rows of a whole export, header included.
pub proof fn law_loaded_total_matches_export(rows: Seq<Seq<String>>, label: Seq<char>)
    requires
        rows.len() >= 1,
        forall|i: int|
            1 <= i < rows.len() && column(#[trigger] rows[i], 4) == label ==> is_cent_exact(
                column(rows[i], 2),
            ),
    ensures
        sum_of_type(data_transactions(rows), label) == source_total(rows.drop_first(), label),
{
    let d = rows.drop_first();
    assert forall|i: int| 0 <= i < d.len() && column(#[trigger] d[i], 4) == label implies is_cent_exact(
        column(d[i], 2),
    ) by {
        assert(d[i] == rows[i + 1]);
    }
    law_total_matches_source(d, label);
}

/// What a store holds after `replace` depends on the new set alone: two
/// replacements with the same set leave the same count and listing.
pub proof fn law_replace_idempotent(
    ts: Seq<Transaction>,
    after_first: TransactionStore,
    after_second: TransactionStore,
)
    requires
        after_first@ == views(ts),
        after_second@ == views(ts),
    ensures
        after_first@ == after_second@,
        after_first@.len() == ts.len(),
{
}

/// A row whose amount is not a decimal loads with zero cents; a row without
/// a hidden column loads as not hidden.
pub proof fn law_defaults(row: Seq<String>)
    ensures
        !is_decimal(column(row, 2)) ==> row_transaction(row).amount == 0,
        row.len() < 8 ==> !row_transaction(row).hidden,
{
    assert(true_text().len() == 4);
}

} // verus!
