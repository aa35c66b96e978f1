use ledger::amount::parse_cents;
use ledger::ingest::{ingest_rows, Ingestor};
use ledger::store::TransactionStore;
use ledger::transaction::{build_transaction, Transaction};

fn row(fields: &[&str]) -> Vec<String> {
    fields.iter().map(|s| s.to_string()).collect()
}

fn header() -> Vec<String> {
    row(&[
        "Date",
        "Description",
        "Amount",
        "Account Name",
        "Transaction Type",
        "Category",
        "Sub Category",
        "Hidden",
    ])
}

fn sample_rows() -> Vec<Vec<String>> {
    vec![
        header(),
        row(&["2024-01-01", "Paycheck", "1000.50", "Checking", "Income", "Salary", "", ""]),
        row(&["2024-01-02", "Coffee", "-4.25", "Checking", "Expenses", "Food", "Cafe", "false"]),
    ]
}

fn descriptions(ts: &[Transaction]) -> Vec<String> {
    ts.iter().map(|t| t.description.clone()).collect()
}

#[test]
fn parse_cents_plain_values() {
    assert_eq!(parse_cents("1000.50"), Some(100050));
    assert_eq!(parse_cents("-4.25"), Some(-425));
    assert_eq!(parse_cents("12"), Some(1200));
    assert_eq!(parse_cents("+.5"), Some(50));
    assert_eq!(parse_cents("3."), Some(300));
    assert_eq!(parse_cents("-0"), Some(0));
}

#[test]
fn parse_cents_rounds_half_away_from_zero() {
    assert_eq!(parse_cents("1.005"), Some(101));
    assert_eq!(parse_cents("1.0049999"), Some(100));
    assert_eq!(parse_cents("-2.675"), Some(-268));
    assert_eq!(parse_cents("0.004"), Some(0));
    assert_eq!(parse_cents("0.995"), Some(100));
}

#[test]
fn parse_cents_rejects_non_amounts() {
    assert_eq!(parse_cents("N/A"), None);
    assert_eq!(parse_cents(""), None);
    assert_eq!(parse_cents("."), None);
    assert_eq!(parse_cents("-"), None);
    assert_eq!(parse_cents("1.2.3"), None);
    assert_eq!(parse_cents(" 5"), None);
    assert_eq!(parse_cents("5 "), None);
    assert_eq!(parse_cents("1e3"), None);
    assert_eq!(parse_cents("1.5x"), None);
}

#[test]
fn parse_cents_at_the_limits_of_i64() {
    assert_eq!(parse_cents("92233720368547758.07"), Some(i64::MAX));
    assert_eq!(parse_cents("-92233720368547758.07"), Some(-i64::MAX));
    assert_eq!(parse_cents("92233720368547758.08"), None);
    assert_eq!(parse_cents("92233720368547759"), None);
    assert_eq!(parse_cents("123456789012345678901234567890"), None);
}

#[test]
fn build_transaction_reads_columns_by_position() {
    let t = build_transaction(&row(&[
        "2024-01-02", "Coffee", "-4.25", "Checking", "Expenses", "Food", "Cafe", "true", "extra",
    ]));
    assert_eq!(t.date, "2024-01-02");
    assert_eq!(t.description, "Coffee");
    assert_eq!(t.amount, -425);
    assert_eq!(t.account_name, "Checking");
    assert_eq!(t.transaction_type, "Expenses");
    assert_eq!(t.category, "Food");
    assert_eq!(t.sub_category, "Cafe");
    assert!(t.hidden);
}

#[test]
fn non_numeric_amount_defaults_to_zero() {
    let t = build_transaction(&row(&["2024-01-03", "Refund", "N/A", "Checking", "Income"]));
    assert_eq!(t.amount, 0);
    assert_eq!(t.transaction_type, "Income");
}

#[test]
fn short_row_defaults_missing_columns() {
    let t = build_transaction(&row(&["2024-01-03", "Refund"]));
    assert_eq!(t.date, "2024-01-03");
    assert_eq!(t.amount, 0);
    assert_eq!(t.account_name, "");
    assert_eq!(t.transaction_type, "");
    assert_eq!(t.category, "");
    assert_eq!(t.sub_category, "");
    assert!(!t.hidden);
}

#[test]
fn unparsable_hidden_flag_is_false() {
    let t = build_transaction(&row(&["d", "x", "1", "a", "Income", "c", "s", "yes"]));
    assert!(!t.hidden);
    let t = build_transaction(&row(&["d", "x", "1", "a", "Income", "c", "s", "True"]));
    assert!(!t.hidden);
    let t = build_transaction(&row(&["d", "x", "1", "a", "Income", "c", "s", "false"]));
    assert!(!t.hidden);
}

#[test]
fn ingest_drops_only_the_header() {
    let ts = ingest_rows(&sample_rows());
    assert_eq!(descriptions(&ts), vec!["Paycheck", "Coffee"]);
}

#[test]
fn ingest_of_header_only_or_nothing_is_empty() {
    assert!(ingest_rows(&vec![header()]).is_empty());
    assert!(ingest_rows(&Vec::new()).is_empty());
}

#[test]
fn ingest_row_count_matches_store_count() {
    for n in 0..5usize {
        let mut rows = vec![header()];
        for i in 0..n {
            rows.push(row(&["2024-02-01", &format!("item {}", i), "1", "A", "Income"]));
        }
        let ts = ingest_rows(&rows);
        assert_eq!(ts.len(), n);
        let mut store = TransactionStore::new();
        assert_eq!(store.replace(ts), n);
        assert_eq!(store.count(), n);
    }
}

#[test]
fn ingestor_takes_rows_one_at_a_time() {
    let mut ingestor = Ingestor::new();
    for r in sample_rows() {
        ingestor.push_row(&r);
    }
    let ts = ingestor.finish();
    assert_eq!(descriptions(&ts), vec!["Paycheck", "Coffee"]);
}

#[test]
fn sample_export_totals() {
    let mut store = TransactionStore::new();
    store.replace(ingest_rows(&sample_rows()));
    assert_eq!(store.count(), 2);
    assert_eq!(store.income_cents(), 100050);
    assert_eq!(store.expense_cents(), -425);
    assert_eq!(store.income_cents() as f64 / 100.0, 1000.50);
    assert_eq!(store.expense_cents() as f64 / 100.0, -4.25);
}

#[test]
fn income_total_equals_source_amounts_in_cents() {
    let amounts = ["0.10", "0.20", "0.30", "19.99", "-5.01", "1000000.01"];
    let mut rows = vec![header()];
    for a in amounts.iter() {
        rows.push(row(&["2024-03-01", "pay", a, "A", "Income"]));
        rows.push(row(&["2024-03-01", "spend", "7.77", "A", "Expenses"]));
    }
    let mut store = TransactionStore::new();
    store.replace(ingest_rows(&rows));
    assert_eq!(store.income_cents(), 10 + 20 + 30 + 1999 - 501 + 100000001);
    assert_eq!(store.expense_cents(), 6 * 777);
}

#[test]
fn sum_by_type_is_exact_and_case_sensitive() {
    let rows = vec![
        header(),
        row(&["d", "a", "1.00", "A", "Income"]),
        row(&["d", "b", "2.00", "A", "income"]),
        row(&["d", "c", "3.00", "A", "Income "]),
        row(&["d", "e", "4.00", "A", "Transfer"]),
    ];
    let mut store = TransactionStore::new();
    store.replace(ingest_rows(&rows));
    assert_eq!(store.sum_by_type("Income"), 100);
    assert_eq!(store.sum_by_type("income"), 200);
    assert_eq!(store.sum_by_type("Transfer"), 400);
    assert_eq!(store.sum_by_type("Gift"), 0);
}

#[test]
fn sums_do_not_overflow_i64() {
    let big = "92233720368547758.07";
    let rows = vec![
        header(),
        row(&["d", "a", big, "A", "Income"]),
        row(&["d", "b", big, "A", "Income"]),
        row(&["d", "c", &format!("-{}", big), "A", "Expenses"]),
        row(&["d", "e", &format!("-{}", big), "A", "Expenses"]),
    ];
    let mut store = TransactionStore::new();
    store.replace(ingest_rows(&rows));
    assert_eq!(store.income_cents(), 2 * i64::MAX as i128);
    assert_eq!(store.expense_cents(), -2 * i64::MAX as i128);
}

#[test]
fn empty_store_answers_zero() {
    let store = TransactionStore::new();
    assert_eq!(store.count(), 0);
    assert!(store.list().is_empty());
    assert_eq!(store.income_cents(), 0);
    assert_eq!(store.expense_cents(), 0);
}

#[test]
fn replace_twice_gives_same_count_and_listing() {
    let mut store = TransactionStore::new();
    let n1 = store.replace(ingest_rows(&sample_rows()));
    let l1 = descriptions(&store.list());
    let n2 = store.replace(ingest_rows(&sample_rows()));
    let l2 = descriptions(&store.list());
    assert_eq!(n1, n2);
    assert_eq!(store.count(), 2);
    assert_eq!(l1, l2);
}

#[test]
fn replace_discards_previous_set() {
    let mut store = TransactionStore::new();
    store.replace(ingest_rows(&sample_rows()));
    let n = store.replace(ingest_rows(&vec![header(), row(&["d", "only", "2", "A", "Income"])]));
    assert_eq!(n, 1);
    assert_eq!(descriptions(&store.list()), vec!["only"]);
    assert_eq!(store.income_cents(), 200);
    assert_eq!(store.expense_cents(), 0);
}

#[test]
fn snapshot_survives_later_replace() {
    let mut store = TransactionStore::new();
    store.replace(ingest_rows(&sample_rows()));
    let mut snapshot = store.list();
    store.replace(Vec::new());
    assert_eq!(store.count(), 0);
    assert_eq!(descriptions(&snapshot), vec!["Paycheck", "Coffee"]);
    assert_eq!(snapshot[0].amount, 100050);
    snapshot[0].amount = 1;
    snapshot.clear();
    assert_eq!(store.count(), 0);
}

#[test]
fn listing_copy_does_not_touch_store() {
    let mut store = TransactionStore::new();
    store.replace(ingest_rows(&sample_rows()));
    let mut copy = store.list();
    copy[0].amount = 7;
    copy[1].transaction_type = "Income".to_string();
    assert_eq!(store.income_cents(), 100050);
    assert_eq!(store.list()[0].amount, 100050);
}
