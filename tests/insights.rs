use viztra::deal::{Amount, Deal, DealColumns};
use viztra::executor::{InsightStep, execute_insight, plan_sources};
use viztra::insights::{InsightKind, QueryOutcome, QueryPlan};
use viztra::json::Violation;
use viztra::model::{
    BatchInsightRequest, Cell, InsightRequest, InsightResponse, ProfitBySymbolResult, ResultRow,
    TotalBalanceResult, UnitOutcome, assemble_batch, extract_columns, profit_rows,
};
use viztra::registry::{
    InsightRegistry, RegistrySlot, TotalBalanceInsight, builtin_registry, get_insight,
    get_registry, initialize_registry,
};
use viztra::validator::ParameterValidator;

fn object(members: Vec<(&str, serde_json::Value)>) -> serde_json::Value {
    let mut map = serde_json::Map::new();
    for (k, v) in members {
        map.insert(k.to_string(), v);
    }
    serde_json::Value::Object(map)
}

fn request(id: &str, parameters: serde_json::Value) -> InsightRequest {
    InsightRequest { insight_id: id.to_string(), parameters }
}

fn amount(x: f64) -> Amount {
    Amount::from_bits(x.to_bits())
}

fn deal(ticket: i64, time: i64, deal_type: i64, entry: i64, profit: f64) -> Deal {
    Deal {
        ticket,
        order: 0,
        time,
        time_msc: 0,
        deal_type,
        entry,
        magic: 0,
        position_id: 0,
        reason: 0,
        volume: amount(1.0),
        price: amount(1.0),
        commission: amount(0.0),
        swap: amount(0.0),
        profit: amount(profit),
        fee: amount(0.0),
        symbol: "EURUSD".to_string(),
        comment: String::new(),
        external_id: String::new(),
    }
}

fn ready_registry() -> RegistrySlot {
    let mut slot = RegistrySlot::new();
    initialize_registry(&mut slot);
    slot
}

#[test]
fn registry_serves_total_balance_after_initialization() {
    let mut slot = RegistrySlot::new();
    assert!(!slot.initialized());
    initialize_registry(&mut slot);
    assert!(slot.initialized());
    let k = get_insight(&slot, "deals.total_balance").unwrap();
    assert_eq!(k, InsightKind::TotalBalance);
    assert_eq!(k.identifier(), "deals.total_balance");
    assert_eq!(TotalBalanceInsight::new().kind(), k);
    assert_eq!(get_insight(&slot, "deals.nothing"), None);
}

#[test]
fn initialization_happens_once() {
    let mut slot = ready_registry();
    initialize_registry(&mut slot);
    assert_eq!(get_registry(&slot).list_identifiers().len(), 6);
}

#[test]
fn builtin_registry_lists_every_insight() {
    let r = builtin_registry();
    assert_eq!(
        r.list_identifiers(),
        vec![
            "deals.profit_by_symbol",
            "deals.trade_entries",
            "deals.all_entries",
            "deals.trade_entries_with_balance",
            "deals.balance_entries",
            "deals.total_balance",
        ]
    );
    assert!(r.is_registered("deals.all_entries"));
    assert!(!r.is_registered("deals.all"));
}

#[test]
fn registering_twice_keeps_one_entry() {
    let mut r = InsightRegistry::new();
    r.register(InsightKind::AllEntries);
    r.register(InsightKind::AllEntries);
    r.register(InsightKind::TotalBalance);
    assert_eq!(r.list_identifiers(), vec!["deals.all_entries", "deals.total_balance"]);
    assert_eq!(r.get("deals.total_balance"), Some(InsightKind::TotalBalance));
}

#[test]
fn declared_schema_is_json_schema_text() {
    let text = InsightKind::ProfitBySymbol.parameter_schema().to_json_text();
    let v: serde_json::Value = serde_json::from_str(&text).unwrap();
    assert_eq!(v["type"], "object");
    assert_eq!(v["title"], "ProfitBySymbolParams");
    assert_eq!(v["properties"]["min_profit"]["type"][0], "number");
    assert_eq!(v["properties"]["account_number"]["type"][1], "null");
    let doc = InsightKind::ProfitBySymbol.schema_document().unwrap();
    assert_eq!(doc, v);
}

#[test]
fn schema_validation_reports_one_violation_with_its_path() {
    let schema = InsightKind::BalanceEntries.schema_document().unwrap();
    let params = object(vec![("account_number", serde_json::Value::from(5))]);
    let err = ParameterValidator::validate(&schema, &params).unwrap_err();
    assert!(err.message.starts_with("Parameter '/account_number': "));
    assert!(!err.message.contains('\n'));
    assert!(ParameterValidator::validate(&schema, &object(vec![])).is_ok());
}

#[test]
fn schema_validation_collects_every_violation() {
    let schema = InsightKind::ProfitBySymbol.schema_document().unwrap();
    let params = object(vec![
        ("account_number", serde_json::Value::Bool(true)),
        ("min_profit", serde_json::Value::String("high".to_string())),
    ]);
    let err = ParameterValidator::validate(&schema, &params).unwrap_err();
    assert!(err.message.starts_with("Validation failed with 2 errors:\n"));
    assert_eq!(err.message.lines().count(), 3);
}

#[test]
fn violation_report_formats() {
    assert!(ParameterValidator::report(&Vec::new()).is_ok());
    let one = vec![Violation { instance_path: String::new(), message: "bad".to_string() }];
    assert_eq!(ParameterValidator::report(&one).unwrap_err().message, "bad");
    let two = vec![
        Violation { instance_path: "/a".to_string(), message: "x".to_string() },
        Violation { instance_path: String::new(), message: "y".to_string() },
    ];
    assert_eq!(
        ParameterValidator::report(&two).unwrap_err().message,
        "Validation failed with 2 errors:\nParameter '/a': x\ny"
    );
}

#[test]
fn insight_own_check_and_decoding() {
    let k = InsightKind::ProfitBySymbol;
    let ok = object(vec![
        ("account_number", serde_json::Value::String("77".to_string())),
        ("min_profit", serde_json::Value::from(2.5)),
    ]);
    assert!(k.validate_parameters(&ok).is_ok());
    match k.decode_parameters(&ok).unwrap() {
        QueryPlan::ProfitBySymbol(p) => {
            assert_eq!(p.account_number.as_deref(), Some("77"));
            assert_eq!(p.min_profit, Some(amount(2.5)));
        }
        other => panic!("unexpected plan {:?}", other),
    }
    let bad = object(vec![("min_profit", serde_json::Value::String("x".to_string()))]);
    assert_eq!(
        k.validate_parameters(&bad).unwrap_err().message,
        "Invalid parameters: field 'min_profit' expects a number"
    );
    let not_object = serde_json::Value::from(3);
    assert_eq!(
        k.decode_parameters(&not_object).unwrap_err().message,
        "Failed to parse parameters: expected an object"
    );
    let null_member = object(vec![("account_number", serde_json::Value::Null)]);
    match InsightKind::TotalBalance.decode_parameters(&null_member).unwrap() {
        QueryPlan::TotalBalance(p) => assert!(p.account_number.is_none()),
        other => panic!("unexpected plan {:?}", other),
    }
}

#[test]
fn unknown_insight_is_not_found() {
    let slot = ready_registry();
    let err = execute_insight(get_registry(&slot), &request("deals.nope", object(vec![]))).unwrap_err();
    assert_eq!(err, "Insight 'deals.nope' not found");
}

#[test]
fn invalid_parameters_give_failure_response() {
    let slot = ready_registry();
    let params = object(vec![("account_number", serde_json::Value::from(1))]);
    match execute_insight(get_registry(&slot), &request("deals.trade_entries", params)).unwrap() {
        InsightStep::Respond(resp) => {
            assert!(!resp.success);
            assert!(resp.data.is_none());
            assert!(resp.columns.is_empty());
            assert!(resp.error.unwrap().starts_with("Parameter validation failed: Parameter '/account_number'"));
        }
        other => panic!("unexpected step {:?}", other),
    }
}

#[test]
fn valid_request_runs_entry_query() {
    let slot = ready_registry();
    let params = object(vec![("account_number", serde_json::Value::String("acc".to_string()))]);
    let plan = match execute_insight(get_registry(&slot), &request("deals.balance_entries", params)).unwrap() {
        InsightStep::Query(p) => p,
        other => panic!("unexpected step {:?}", other),
    };
    assert_eq!(plan.kind(), InsightKind::BalanceEntries);
    let files = vec!["acc.parquet".to_string()];
    assert_eq!(plan_sources(&plan, "/deals", &files).unwrap(), vec!["/deals/acc.parquet"]);
    let ds = vec![DealColumns::from_deals(&vec![
        deal(1, 20, 2, 0, 100.0),
        deal(2, 10, 0, 1, 5.0),
        deal(3, 5, 2, 0, 50.0),
    ])];
    match plan.run(&ds) {
        QueryOutcome::Rows(rows) => {
            let resp = InsightResponse::with_rows(rows);
            assert!(resp.success);
            assert_eq!(resp.columns.len(), 18);
            assert_eq!(resp.columns[0], "comment");
            assert_eq!(resp.columns[17], "volume");
            let data = resp.data.unwrap();
            assert_eq!(data.len(), 2);
            assert!(matches!(data[0].fields[13], (ref k, Cell::Int(3)) if k == "ticket"));
        }
        other => panic!("unexpected outcome {:?}", other),
    }
}

#[test]
fn aggregate_plans_hand_back_terms_and_groups() {
    let slot = ready_registry();
    let ds = vec![DealColumns::from_deals(&vec![deal(1, 20, 2, 0, 100.0), deal(2, 10, 0, 1, 5.0)])];
    let total = match execute_insight(get_registry(&slot), &request("deals.total_balance", object(vec![]))).unwrap() {
        InsightStep::Query(p) => p,
        other => panic!("unexpected step {:?}", other),
    };
    match total.run(&ds) {
        QueryOutcome::BalanceTerms(t) => assert_eq!(t, vec![amount(100.0)]),
        other => panic!("unexpected outcome {:?}", other),
    }
    let params = object(vec![("min_profit", serde_json::Value::from(1.0))]);
    let profit = match execute_insight(get_registry(&slot), &request("deals.profit_by_symbol", params)).unwrap() {
        InsightStep::Query(p) => p,
        other => panic!("unexpected step {:?}", other),
    };
    match profit.run(&ds) {
        QueryOutcome::SymbolGroups { groups, min_profit } => {
            assert_eq!(groups.len(), 1);
            assert_eq!(groups[0].trade_count(), 2);
            assert_eq!(min_profit, Some(amount(1.0)));
        }
        other => panic!("unexpected outcome {:?}", other),
    }
}

#[test]
fn result_rows_of_aggregates() {
    let rows = TotalBalanceResult { total_balance: amount(0.0) }.to_rows();
    assert_eq!(extract_columns(&rows), vec!["total_balance"]);
    let p = ProfitBySymbolResult {
        symbol: "EURUSD".to_string(),
        total_profit: amount(10.0),
        total_volume: amount(2.0),
        trade_count: 4,
        avg_profit: amount(2.5),
    };
    let rows = profit_rows(&vec![p]);
    assert_eq!(
        extract_columns(&rows),
        vec!["avg_profit", "symbol", "total_profit", "total_volume", "trade_count"]
    );
    assert!(extract_columns(&Vec::<ResultRow>::new()).is_empty());
}

#[test]
fn execution_outcome_becomes_response() {
    let failed = InsightResponse::from_execution(Err(viztra::error::AppError::new("boom")));
    assert!(!failed.success);
    assert_eq!(failed.error.as_deref(), Some("boom"));
    let empty = InsightResponse::from_execution(Ok(Vec::new()));
    assert!(empty.success);
    assert!(empty.columns.is_empty());
    assert_eq!(empty.data.map(|d| d.len()), Some(0));
}

#[test]
fn batch_keeps_order_and_isolates_unknown_request() {
    let slot = ready_registry();
    let batch = BatchInsightRequest {
        requests: vec![
            request("deals.all_entries", object(vec![])),
            request("deals.unknown", object(vec![])),
            request("deals.total_balance", object(vec![])),
        ],
    };
    let registry = get_registry(&slot);
    let outcomes: Vec<UnitOutcome> = batch
        .requests
        .iter()
        .map(|r| {
            UnitOutcome::Finished(execute_insight(registry, r).map(|step| match step {
                InsightStep::Respond(resp) => resp,
                InsightStep::Query(plan) => match plan.run(&Vec::new()) {
                    QueryOutcome::Rows(rows) => InsightResponse::with_rows(rows),
                    QueryOutcome::BalanceTerms(_) => InsightResponse::with_rows(
                        TotalBalanceResult { total_balance: Amount::zero() }.to_rows(),
                    ),
                    QueryOutcome::SymbolGroups { .. } => InsightResponse::with_rows(Vec::new()),
                },
            }))
        })
        .collect();
    let resp = assemble_batch(&batch.insight_ids(), outcomes);
    assert_eq!(resp.results.len(), 3);
    assert_eq!(resp.results[0].insight_id, "deals.all_entries");
    assert!(resp.results[0].success);
    assert_eq!(resp.results[1].insight_id, "deals.unknown");
    assert!(!resp.results[1].success);
    assert_eq!(resp.results[1].error.as_deref(), Some("Insight 'deals.unknown' not found"));
    assert_eq!(resp.results[2].insight_id, "deals.total_balance");
    assert!(resp.results[2].success);
    assert_eq!(resp.results[2].columns, vec!["total_balance"]);
}

#[test]
fn batch_items_for_faults_and_missing_fields() {
    let ids = vec!["a".to_string()];
    let outcomes = vec![
        UnitOutcome::Faulted("worker stopped".to_string()),
        UnitOutcome::Finished(Ok(InsightResponse {
            success: false,
            data: None,
            error: None,
            columns: Vec::new(),
        })),
        UnitOutcome::Finished(Ok(InsightResponse {
            success: true,
            data: None,
            error: None,
            columns: vec!["c".to_string()],
        })),
    ];
    let resp = assemble_batch(&ids, outcomes);
    assert_eq!(resp.results[0].insight_id, "a");
    assert_eq!(resp.results[0].error.as_deref(), Some("Join error: worker stopped"));
    assert_eq!(resp.results[1].insight_id, "unknown_1");
    assert_eq!(resp.results[1].error.as_deref(), Some("Unknown error"));
    assert_eq!(resp.results[2].insight_id, "unknown_2");
    assert!(resp.results[2].success);
    assert_eq!(resp.results[2].data.as_ref().map(|d| d.len()), Some(0));
    assert_eq!(resp.results[2].columns, vec!["c"]);
}

#[test]
fn insight_names_and_descriptions() {
    let k = TotalBalanceInsight::new().kind();
    assert_eq!(k.name(), "Total Balance");
    assert_eq!(k.identifier(), "deals.total_balance");
    assert_eq!(
        k.description(),
        "Returns the sum of profit from balance entries (type == 2 AND entry == 0)"
    );
    assert_eq!(k.parameter_schema().title, "TotalBalanceParams");
}

#[test]
fn schema_check_failure_comes_before_own_check() {
    let slot = ready_registry();
    let params = serde_json::Value::from(7);
    match execute_insight(get_registry(&slot), &request("deals.all_entries", params)).unwrap() {
        InsightStep::Respond(resp) => {
            let message = resp.error.unwrap();
            assert!(message.starts_with("Parameter validation failed: "));
            assert!(!message.contains("Invalid parameters"));
            assert!(resp.columns.is_empty());
        }
        other => panic!("unexpected step {:?}", other),
    }
}
