use viztra::deal::{Amount, Deal, DealColumns};
use viztra::query::{
    EntryFilter, balance_terms, group_by_symbol, is_dataset_file_name, query_entries,
    select_source_files, source_file_name,
};

fn amount(x: f64) -> Amount {
    Amount::from_bits(x.to_bits())
}

fn value(a: Amount) -> f64 {
    f64::from_bits(a.to_bits())
}

fn row(ticket: i64, time: i64, deal_type: i64, entry: i64, symbol: &str, profit: f64) -> Deal {
    Deal {
        ticket,
        order: 0,
        time,
        time_msc: time * 1000,
        deal_type,
        entry,
        magic: 0,
        position_id: 0,
        reason: 0,
        volume: amount(1.0),
        price: amount(1.0),
        commission: amount(0.0),
        swap: amount(0.0),
        profit: amount(profit),
        fee: amount(0.0),
        symbol: symbol.to_string(),
        comment: String::new(),
        external_id: String::new(),
    }
}

fn datasets() -> Vec<DealColumns> {
    let first = vec![
        row(1, 300, 2, 0, "", 1000.0),
        row(2, 100, 0, 0, "EURUSD", 0.0),
        row(3, 200, 1, 1, "EURUSD", 15.0),
        row(4, 50, 2, 0, "", 250.0),
    ];
    let second = vec![
        row(5, 150, 0, 1, "GBPUSD", -5.0),
        row(6, 200, 2, 1, "", 7.0),
        row(7, 10, 0, 0, "EURUSD", 0.0),
    ];
    vec![DealColumns::from_deals(&first), DealColumns::from_deals(&second)]
}

fn tickets(rows: &[Deal]) -> Vec<i64> {
    rows.iter().map(|d| d.ticket).collect()
}

#[test]
fn balance_entries_select_type_two_entry_zero_by_time() {
    let rows = query_entries(&datasets(), EntryFilter::Balance);
    assert_eq!(tickets(&rows), vec![4, 1]);
}

#[test]
fn trade_entries_select_entry_one_by_time() {
    let rows = query_entries(&datasets(), EntryFilter::Trade);
    assert_eq!(tickets(&rows), vec![5, 3, 6]);
}

#[test]
fn trade_entries_with_balance_select_either() {
    let rows = query_entries(&datasets(), EntryFilter::TradeWithBalance);
    assert_eq!(tickets(&rows), vec![4, 5, 3, 6, 1]);
}

#[test]
fn all_entries_keep_every_row_by_time_ties_in_order() {
    let rows = query_entries(&datasets(), EntryFilter::All);
    assert_eq!(tickets(&rows), vec![7, 4, 2, 5, 3, 6, 1]);
}

#[test]
fn trade_and_balance_partition_trade_with_balance() {
    let first = vec![
        row(1, 5, 2, 0, "", 1.0),
        row(2, 4, 0, 1, "A", 2.0),
        row(3, 3, 1, 1, "B", 3.0),
        row(4, 2, 0, 0, "C", 4.0),
    ];
    let ds = vec![DealColumns::from_deals(&first)];
    let mut union = tickets(&query_entries(&ds, EntryFilter::Trade));
    let balance = tickets(&query_entries(&ds, EntryFilter::Balance));
    assert!(balance.iter().all(|t| !union.contains(t)));
    union.extend(balance);
    union.sort();
    let mut both = tickets(&query_entries(&ds, EntryFilter::TradeWithBalance));
    both.sort();
    assert_eq!(union, both);
}

#[test]
fn queries_over_no_data_are_empty() {
    assert!(query_entries(&Vec::new(), EntryFilter::All).is_empty());
    assert!(balance_terms(&Vec::new()).is_empty());
    assert!(group_by_symbol(&Vec::new()).is_empty());
}

#[test]
fn balance_terms_are_profits_of_balance_entries() {
    let terms: Vec<f64> = balance_terms(&datasets()).into_iter().map(value).collect();
    assert_eq!(terms, vec![1000.0, 250.0]);
    let total: f64 = terms.iter().sum();
    assert_eq!(total, 1250.0);
    let mut entry_profits: Vec<f64> =
        query_entries(&datasets(), EntryFilter::Balance).iter().map(|d| value(d.profit)).collect();
    entry_profits.sort_by(|a, b| a.partial_cmp(b).unwrap());
    let mut sorted_terms = terms.clone();
    sorted_terms.sort_by(|a, b| a.partial_cmp(b).unwrap());
    assert_eq!(entry_profits, sorted_terms);
}

#[test]
fn groups_by_symbol_in_first_appearance_order() {
    let groups = group_by_symbol(&datasets());
    let names: Vec<&str> = groups.iter().map(|g| g.symbol.as_str()).collect();
    assert_eq!(names, vec!["", "EURUSD", "GBPUSD"]);
    let counts: Vec<u64> = groups.iter().map(|g| g.trade_count()).collect();
    assert_eq!(counts, vec![3, 3, 1]);
    let eur: Vec<f64> = groups[1].profits.iter().map(|a| value(*a)).collect();
    assert_eq!(eur, vec![0.0, 15.0, 0.0]);
    assert_eq!(groups[2].volumes.len(), 1);
}

#[test]
fn named_source_resolves_to_one_file() {
    let files = vec!["12345.parquet".to_string(), "notes.txt".to_string()];
    let r = select_source_files(&Some("12345".to_string()), "/data/deals", &files).unwrap();
    assert_eq!(r, vec!["/data/deals/12345.parquet".to_string()]);
    let r = select_source_files(&Some("12345.parquet".to_string()), "/data/deals/", &files).unwrap();
    assert_eq!(r, vec!["/data/deals/12345.parquet".to_string()]);
}

#[test]
fn named_source_that_is_absent_is_not_found() {
    let files = vec!["12345.parquet".to_string()];
    let err = select_source_files(&Some("999".to_string()), "/data/deals", &files).unwrap_err();
    assert_eq!(err.message, "Deal file not found: /data/deals/999.parquet");
}

#[test]
fn without_source_every_dataset_file_is_read_in_listing_order() {
    let files = vec![
        "b.parquet".to_string(),
        "readme.md".to_string(),
        ".parquet".to_string(),
        "a.parquet".to_string(),
    ];
    let r = select_source_files(&None, "/d", &files).unwrap();
    assert_eq!(r, vec!["/d/b.parquet".to_string(), "/d/a.parquet".to_string()]);
}

#[test]
fn empty_directory_gives_no_files() {
    let r = select_source_files(&None, "/d", &Vec::new()).unwrap();
    assert!(r.is_empty());
}

#[test]
fn dataset_file_names() {
    assert_eq!(source_file_name("acct"), "acct.parquet");
    assert_eq!(source_file_name("acct.parquet"), "acct.parquet");
    assert!(is_dataset_file_name("x.parquet"));
    assert!(!is_dataset_file_name(".parquet"));
    assert!(!is_dataset_file_name("x.parquet.bak"));
}
