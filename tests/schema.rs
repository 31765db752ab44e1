use viztra::schema::{
    ColumnInfo, ColumnType, ParquetValidator, SchemaIssue, deals_schema, get_column_type,
};

fn canonical_columns() -> Vec<ColumnInfo> {
    deals_schema()
        .into_iter()
        .map(|(name, t)| ColumnInfo {
            name: name.to_string(),
            dtype: t,
            dtype_name: format!("{:?}", t),
            null_count: 0,
        })
        .collect()
}

#[test]
fn canonical_dataset_passes() {
    assert!(ParquetValidator::validate_deals_schema(&canonical_columns()).is_ok());
}

#[test]
fn canonical_dataset_in_another_order_passes() {
    let mut cols = canonical_columns();
    cols.reverse();
    assert!(ParquetValidator::validate_deals_schema(&cols).is_ok());
}

#[test]
fn missing_column_is_named() {
    let cols: Vec<ColumnInfo> =
        canonical_columns().into_iter().filter(|c| c.name != "profit").collect();
    let err = ParquetValidator::validate_deals_schema(&cols).unwrap_err();
    assert_eq!(err.issues.len(), 1);
    assert!(matches!(&err.issues[0], SchemaIssue::MissingColumn(n) if n == "profit"));
    assert_eq!(err.message(), "Missing required column: profit");
}

#[test]
fn every_missing_column_is_reported() {
    let cols: Vec<ColumnInfo> = canonical_columns()
        .into_iter()
        .filter(|c| c.name != "ticket" && c.name != "symbol")
        .collect();
    let err = ParquetValidator::validate_deals_schema(&cols).unwrap_err();
    assert_eq!(
        err.message(),
        "Missing required column: ticket\nMissing required column: symbol"
    );
}

#[test]
fn null_values_are_counted() {
    let mut cols = canonical_columns();
    for c in cols.iter_mut() {
        if c.name == "comment" {
            c.null_count = 4;
        }
    }
    let err = ParquetValidator::validate_deals_schema(&cols).unwrap_err();
    assert!(matches!(
        &err.issues[0],
        SchemaIssue::NullValues { column, count: 4 } if column == "comment"
    ));
    assert_eq!(
        err.message(),
        "Column 'comment' contains 4 null value(s). All columns must be non-nullable."
    );
}

#[test]
fn unexpected_column_is_refused() {
    let mut cols = canonical_columns();
    cols.push(ColumnInfo {
        name: "extra".to_string(),
        dtype: ColumnType::Int64,
        dtype_name: "Int64".to_string(),
        null_count: 0,
    });
    let err = ParquetValidator::validate_deals_schema(&cols).unwrap_err();
    assert_eq!(
        err.message(),
        "Unexpected column found: extra. Schema must match exactly."
    );
}

#[test]
fn wrong_type_is_reported_without_widening() {
    let mut cols = canonical_columns();
    for c in cols.iter_mut() {
        if c.name == "volume" {
            c.dtype = ColumnType::Other;
            c.dtype_name = "Float32".to_string();
        }
        if c.name == "time" {
            c.dtype = ColumnType::Float64;
            c.dtype_name = "Float64".to_string();
        }
    }
    let err = ParquetValidator::validate_deals_schema(&cols).unwrap_err();
    assert_eq!(
        err.message(),
        "Column 'time' has incorrect type. Expected Int64, found Float64\nColumn 'volume' has incorrect type. Expected Float64, found Float32"
    );
    assert_eq!(err.to_app_error().message, err.message());
}

#[test]
fn column_types_of_the_schema() {
    assert_eq!(get_column_type("ticket"), Some(ColumnType::Int64));
    assert_eq!(get_column_type("fee"), Some(ColumnType::Float64));
    assert_eq!(get_column_type("external_id"), Some(ColumnType::Text));
    assert_eq!(get_column_type("Ticket"), None);
    assert_eq!(deals_schema().len(), 18);
}

#[test]
fn repeated_column_is_refused() {
    let mut cols = canonical_columns();
    let mut again = cols[3].clone();
    again.null_count = 2;
    cols.push(again);
    let err = ParquetValidator::validate_deals_schema(&cols).unwrap_err();
    assert_eq!(
        err.message(),
        "Unexpected column found: time_msc. Schema must match exactly."
    );
}
