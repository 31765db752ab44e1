use viztra::asset::{AssetOperationResult, AssetRepoConfig};
use viztra::cache_dir::{get_asset_cache_dir, get_cache_dir, get_deals_cache_dir, get_symbol_cache_dir};
use viztra::deal::{Amount, Deal, DealColumns};
use viztra::error::AppError;
use viztra::import::{DealImportResult, DealService, FileImportResult, ImportStep};
use viztra::text::{decimal_text, ends_with, join_lines, join_path, same_text};
use viztra::validation::{GreetService, validate_length, validate_non_empty};

fn one_deal(ticket: i64) -> Deal {
    Deal {
        ticket,
        order: 0,
        time: ticket,
        time_msc: 0,
        deal_type: 0,
        entry: 0,
        magic: 0,
        position_id: 0,
        reason: 0,
        volume: Amount::zero(),
        price: Amount::zero(),
        commission: Amount::zero(),
        swap: Amount::zero(),
        profit: Amount::zero(),
        fee: Amount::zero(),
        symbol: String::new(),
        comment: String::new(),
        external_id: String::new(),
    }
}

#[test]
fn decimal_rendering() {
    assert_eq!(decimal_text(0), "0");
    assert_eq!(decimal_text(7), "7");
    assert_eq!(decimal_text(1204), "1204");
    assert_eq!(decimal_text(u64::MAX), "18446744073709551615");
}

#[test]
fn path_joining() {
    assert_eq!(join_path("/a", "b"), "/a/b");
    assert_eq!(join_path("/a/", "b"), "/a/b");
    assert_eq!(join_path("", "b"), "b");
    assert_eq!(join_path("/a", "/etc"), "/etc");
}

#[test]
fn text_helpers() {
    assert!(ends_with("file.parquet", ".parquet"));
    assert!(!ends_with("parquet", ".parquet"));
    assert!(ends_with("x", ""));
    assert!(same_text("é", "é"));
    assert!(!same_text("a", "b"));
    assert_eq!(join_lines(&vec!["a".to_string(), "b".to_string()]), "a\nb");
    assert_eq!(join_lines(&Vec::new()), "");
}

#[test]
fn cache_directories() {
    let home = Some("/home/u/.cache".to_string());
    assert_eq!(get_cache_dir(&home).unwrap(), "/home/u/.cache/viztra");
    assert_eq!(get_asset_cache_dir(&home).unwrap(), "/home/u/.cache/viztra/assets");
    assert_eq!(get_symbol_cache_dir(&home, "EURUSD").unwrap(), "/home/u/.cache/viztra/assets/EURUSD");
    assert_eq!(get_deals_cache_dir(&home).unwrap(), "/home/u/.cache/viztra/deals");
    assert_eq!(
        get_cache_dir(&None).unwrap_err().message,
        "Failed to determine cache directory for this OS"
    );
    assert!(get_symbol_cache_dir(&None, "X").is_err());
}

#[test]
fn blank_and_length_checks() {
    assert_eq!(validate_non_empty("   ", "symbol").unwrap_err().message, "symbol cannot be empty");
    assert!(validate_non_empty("", "symbol").is_err());
    assert!(validate_non_empty(" x ", "symbol").is_ok());
    assert!(validate_length("abc", 1, 3, "f").is_ok());
    assert_eq!(
        validate_length("abcd", 1, 3, "f").unwrap_err().message,
        "f must be between 1 and 3 characters"
    );
    assert!(validate_length("éé", 1, 3, "f").is_err());
}

#[test]
fn greeting() {
    assert_eq!(
        GreetService::create_greeting("Ada").unwrap(),
        "Hello, Ada! You've been greeted from Rust!"
    );
    assert_eq!(GreetService::create_greeting(" ").unwrap_err().message, "name cannot be empty");
    let long = "x".repeat(101);
    assert_eq!(
        GreetService::create_greeting(&long).unwrap_err().message,
        "name must be between 1 and 100 characters"
    );
}

#[test]
fn asset_repository_addresses() {
    let c = AssetRepoConfig::default();
    assert_eq!(c.zip_url(), "https://github.com/savisor/historical-asset-prices/archive/refs/heads/main.zip");
    assert_eq!(c.api_base_url(), "https://api.github.com/repos/savisor/historical-asset-prices");
    assert!(AssetOperationResult::success("ok".to_string()).success);
    assert!(!AssetOperationResult::error("no".to_string()).success);
}

#[test]
fn app_error_has_no_code() {
    let e = AppError::new("m");
    assert_eq!(e.message, "m");
    assert!(e.code.is_none());
}

#[test]
fn import_file_names() {
    assert_eq!(DealService::import_file_name("").unwrap_err().message, "Filename cannot be empty");
    assert_eq!(DealService::import_file_name("123").unwrap(), "123.parquet");
    assert_eq!(DealService::import_file_name("123.parquet").unwrap(), "123.parquet");
}

#[test]
fn per_file_outcomes() {
    let r = DealService::file_outcome("a", ImportStep::Stored("/d/a.parquet".to_string()));
    assert!(r.success);
    assert_eq!(r.message, "Successfully imported to /d/a.parquet");
    let r = DealService::file_outcome("a", ImportStep::WriteFailed("disk full".to_string()));
    assert!(!r.success);
    assert_eq!(r.message, "Failed to write file to temp location: disk full");
    let r = DealService::file_outcome("a", ImportStep::Rejected("Missing required column: fee".to_string()));
    assert_eq!(r.message, "Missing required column: fee");
    let r = DealService::file_outcome("a", ImportStep::CopyFailed("denied".to_string()));
    assert_eq!(r.message, "Failed to copy file to cache directory: denied");
    assert_eq!(r.filename, "a");
}

#[test]
fn import_summaries() {
    let none = DealService::summarize_import(Vec::new(), "/d");
    assert!(!none.success);
    assert_eq!(none.message, "No files provided");
    let ok = FileImportResult::success("a".to_string(), "fine".to_string());
    let bad = FileImportResult::error("b".to_string(), "broken".to_string());
    let all = DealService::summarize_import(vec![ok.clone(), ok.clone()], "/d");
    assert!(all.success);
    assert_eq!(all.message, "Successfully imported 2 file(s) to /d");
    let failed = DealService::summarize_import(vec![bad.clone()], "/d");
    assert!(!failed.success);
    assert_eq!(failed.message, "Failed to import all 1 file(s)");
    let mixed = DealService::summarize_import(vec![ok, bad.clone(), bad], "/d");
    assert!(!mixed.success);
    assert_eq!(mixed.message, "Imported 1 file(s), 2 file(s) failed");
    assert_eq!(mixed.file_results.len(), 3);
    let direct = DealImportResult::error("x".to_string(), Vec::new());
    assert!(!direct.success);
}

#[test]
fn locating_a_stored_file() {
    let files = vec!["a.parquet".to_string()];
    assert_eq!(DealService::locate_file("a", "/d", &files).unwrap(), "/d/a.parquet");
    assert_eq!(
        DealService::locate_file("b", "/d", &files).unwrap_err().message,
        "File does not exist: /d/b.parquet"
    );
}

#[test]
fn reading_all_skips_unreadable_datasets() {
    let a = DealColumns::from_deals(&vec![one_deal(1), one_deal(2)]);
    let b = DealColumns::from_deals(&vec![one_deal(3)]);
    let all = DealService::read_all_deals(&vec![Ok(a), Err(AppError::new("corrupt")), Ok(b)]);
    let tickets: Vec<i64> = all.iter().map(|d| d.ticket).collect();
    assert_eq!(tickets, vec![1, 2, 3]);
}

#[test]
fn unicode_whitespace_is_blank() {
    assert!(validate_non_empty("\u{3000}\t\u{2009}\n", "f").is_err());
    assert!(validate_non_empty("\u{200B}", "f").is_ok());
    assert!(viztra::validation::is_white_space('\u{85}'));
    assert!(!viztra::validation::is_white_space('x'));
}
