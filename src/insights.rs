//! The built-in insights: their identities, declared parameters, decoding of
//! a payload into a query plan, and the query each one runs.
use vstd::prelude::*;
use crate::deal::{Amount, DealColumns, DealView, text_view};
use crate::error::AppError;
use crate::json::{ParamScalar, json_is_object, json_object_of, json_parsed, parse_json};
use crate::model::{ResultRow, deal_row, deal_rows, row_views};
use crate::params::{
    FieldView, ParamField, ParamSchema, ParamType, ScalarView, check_members, check_payload,
    check_view, field_views, members_of, number_member, number_value, payload_check,
    payload_members, schema_json,
    scalar_views, text_member, text_value,
};
use crate::query::{
    EntryFilter, SymbolGroup, all_rows, balance_terms, dataset_views, entries, group_by_symbol,
    group_rows, group_views, query_entries, selected_profits,
};

verus! {

/// The built-in insights.
#[derive(Clone, Copy, Debug, PartialEq, Eq, Structural)]
pub enum InsightKind {
    AllEntries,
    BalanceEntries,
    ProfitBySymbol,
    TotalBalance,
    TradeEntries,
    TradeEntriesWithBalance,
}

/// The identifier under which an insight is registered.
pub open spec fn kind_identifier(k: InsightKind) -> Seq<char> {
    match k {
        InsightKind::AllEntries => "deals.all_entries"@,
        InsightKind::BalanceEntries => "deals.balance_entries"@,
        InsightKind::ProfitBySymbol => "deals.profit_by_symbol"@,
        InsightKind::TotalBalance => "deals.total_balance"@,
        InsightKind::TradeEntries => "deals.trade_entries"@,
        InsightKind::TradeEntriesWithBalance => "deals.trade_entries_with_balance"@,
    }
}

/// The row filter of an entry insight; `None` for the aggregate insights.
pub open spec fn kind_filter(k: InsightKind) -> Option<EntryFilter> {
    match k {
        InsightKind::AllEntries => Some(EntryFilter::All),
        InsightKind::BalanceEntries => Some(EntryFilter::Balance),
        InsightKind::TradeEntries => Some(EntryFilter::Trade),
        InsightKind::TradeEntriesWithBalance => Some(EntryFilter::TradeWithBalance),
        _ => None,
    }
}

pub open spec fn account_field() -> FieldView {
    FieldView {
        name: "account_number"@,
        param_type: ParamType::Text,
        description: "Optional account number (filename without .parquet extension)"@,
    }
}

pub open spec fn min_profit_field() -> FieldView {
    FieldView {
        name: "min_profit"@,
        param_type: ParamType::Number,
        description: "Optional minimum profit threshold to filter results"@,
    }
}

/// The human-readable name of an insight.
pub open spec fn kind_name(k: InsightKind) -> Seq<char> {
    match k {
        InsightKind::AllEntries => "All Deal Entries"@,
        InsightKind::BalanceEntries => "Balance Entries"@,
        InsightKind::ProfitBySymbol => "Profit by Symbol"@,
        InsightKind::TotalBalance => "Total Balance"@,
        InsightKind::TradeEntries => "Trade Entries"@,
        InsightKind::TradeEntriesWithBalance => "Trade Entries With Balance"@,
    }
}

/// What an insight returns, in words.
pub open spec fn kind_description(k: InsightKind) -> Seq<char> {
    match k {
        InsightKind::AllEntries => "Returns all deal entries with no filter"@,
        InsightKind::BalanceEntries => "Returns all deal entries where type == 2 AND entry == 0"@,
        InsightKind::ProfitBySymbol => "Calculates total profit, volume, and trade count grouped by symbol from deal data"@,
        InsightKind::TotalBalance => "Returns the sum of profit from balance entries (type == 2 AND entry == 0)"@,
        InsightKind::TradeEntries => "Returns all deal entries where entry == 1 (trade entries)"@,
        InsightKind::TradeEntriesWithBalance => "Returns all deal entries where entry == 1 OR type == 2"@,
    }
}

/// The schema document of an insight: serde_json's parse of its declared
/// schema text.
pub open spec fn kind_schema_document(k: InsightKind) -> Result<serde_json::Value, Seq<char>> {
    match json_parsed(schema_json(kind_title(k), kind_fields(k))) {
        Ok(v) => Ok(v),
        Err(t) => Err("Invalid JSON Schema: "@ + t),
    }
}

/// The title of an insight's parameter schema.
pub open spec fn kind_title(k: InsightKind) -> Seq<char> {
    match k {
        InsightKind::AllEntries => "AllEntriesParams"@,
        InsightKind::BalanceEntries => "BalanceEntriesParams"@,
        InsightKind::ProfitBySymbol => "ProfitBySymbolParams"@,
        InsightKind::TotalBalance => "TotalBalanceParams"@,
        InsightKind::TradeEntries => "TradeEntriesParams"@,
        InsightKind::TradeEntriesWithBalance => "TradeEntriesWithBalanceParams"@,
    }
}

/// The declared parameters of an insight.
pub open spec fn kind_fields(k: InsightKind) -> Seq<FieldView> {
    if k == InsightKind::ProfitBySymbol {
        seq![account_field(), min_profit_field()]
    } else {
        seq![account_field()]
    }
}

fn account_param() -> (r: ParamField)
    ensures
        r@ == account_field(),
{
    ParamField {
        name: "account_number",
        param_type: ParamType::Text,
        description: "Optional account number (filename without .parquet extension)",
    }
}

fn min_profit_param() -> (r: ParamField)
    ensures
        r@ == min_profit_field(),
{
    ParamField {
        name: "min_profit",
        param_type: ParamType::Number,
        description: "Optional minimum profit threshold to filter results",
    }
}

impl InsightKind {
    /// The stable identifier, used as registry key.
    pub fn identifier(self) -> (r: &'static str)
        ensures
            r@ == kind_identifier(self),
    {
        match self {
            InsightKind::AllEntries => "deals.all_entries",
            InsightKind::BalanceEntries => "deals.balance_entries",
            InsightKind::ProfitBySymbol => "deals.profit_by_symbol",
            InsightKind::TotalBalance => "deals.total_balance",
            InsightKind::TradeEntries => "deals.trade_entries",
            InsightKind::TradeEntriesWithBalance => "deals.trade_entries_with_balance",
        }
    }

    /// A human-readable name.
    pub fn name(self) -> (r: &'static str)
        ensures
            r@ == kind_name(self),
    {
        match self {
            InsightKind::AllEntries => "All Deal Entries",
            InsightKind::BalanceEntries => "Balance Entries",
            InsightKind::ProfitBySymbol => "Profit by Symbol",
            InsightKind::TotalBalance => "Total Balance",
            InsightKind::TradeEntries => "Trade Entries",
            InsightKind::TradeEntriesWithBalance => "Trade Entries With Balance",
        }
    }

    /// What the insight returns.
    pub fn description(self) -> (r: &'static str)
        ensures
            r@ == kind_description(self),
    {
        match self {
            InsightKind::AllEntries => "Returns all deal entries with no filter",
            InsightKind::BalanceEntries => "Returns all deal entries where type == 2 AND entry == 0",
            InsightKind::ProfitBySymbol => "Calculates total profit, volume, and trade count grouped by symbol from deal data",
            InsightKind::TotalBalance => "Returns the sum of profit from balance entries (type == 2 AND entry == 0)",
            InsightKind::TradeEntries => "Returns all deal entries where entry == 1 (trade entries)",
            InsightKind::TradeEntriesWithBalance => "Returns all deal entries where entry == 1 OR type == 2",
        }
    }

    /// The row filter of an entry insight.
    pub fn entry_filter(self) -> (r: Option<EntryFilter>)
        ensures
            r == kind_filter(self),
    {
        match self {
            InsightKind::AllEntries => Some(EntryFilter::All),
            InsightKind::BalanceEntries => Some(EntryFilter::Balance),
            InsightKind::TradeEntries => Some(EntryFilter::Trade),
            InsightKind::TradeEntriesWithBalance => Some(EntryFilter::TradeWithBalance),
            _ => None,
        }
    }

    /// The declared parameter schema, available without running the insight.
    pub fn parameter_schema(self) -> (r: ParamSchema)
        ensures
            r.title@ == kind_title(self),
            field_views(r.fields@) == kind_fields(self),
    {
        let mut fields: Vec<ParamField> = Vec::new();
        fields.push(account_param());
        let title = match self {
            InsightKind::AllEntries => "AllEntriesParams",
            InsightKind::BalanceEntries => "BalanceEntriesParams",
            InsightKind::ProfitBySymbol => "ProfitBySymbolParams",
            InsightKind::TotalBalance => "TotalBalanceParams",
            InsightKind::TradeEntries => "TradeEntriesParams",
            InsightKind::TradeEntriesWithBalance => "TradeEntriesWithBalanceParams",
        };
        if self == InsightKind::ProfitBySymbol {
            fields.push(min_profit_param());
        }
        assert(field_views(fields@) =~= kind_fields(self));
        ParamSchema { title, fields }
    }

    /// The declared schema as a JSON document, for the schema validator.
    pub fn schema_document(self) -> (r: Result<serde_json::Value, AppError>)
        ensures
            match kind_schema_document(self) {
                Ok(v) => r == Ok::<serde_json::Value, AppError>(v),
                Err(m) => r matches Err(e) && e.message@ == m,
            },
    {
        let text = self.parameter_schema().to_json_text();
        match parse_json(text.as_str()) {
            Ok(v) => Ok(v),
            Err(e) => {
                let mut m = String::from_str("Invalid JSON Schema: ");
                m.append(e.as_str());
                Err(AppError::from_message(m))
            },
        }
    }

    /// The insight's own check of a payload: it must decode into the
    /// insight's parameters, an object whose declared members are absent,
    /// null, or of the declared type.
    pub fn validate_parameters(self, params: &serde_json::Value) -> (r: Result<(), AppError>)
        ensures
            check_view(r) == payload_check(
                "Invalid parameters: "@,
                kind_fields(self),
                json_object_of(*params),
                members_of(kind_fields(self), *params),
            ),
    {
        let schema = self.parameter_schema();
        check_payload("Invalid parameters: ", &schema, params)
    }

    /// Decodes a payload into this insight's query plan.
    pub fn decode_parameters(self, params: &serde_json::Value) -> (r: Result<QueryPlan, AppError>)
        ensures
            plan_decoded(r, self, json_object_of(*params), members_of(kind_fields(self), *params)),
    {
        let schema = self.parameter_schema();
        let is_object = json_is_object(params);
        let members = payload_members(&schema, params);
        self.plan_from_members(is_object, &members)
    }

    /// Builds the query plan from the members of a payload, checked against
    /// the declared parameters.
    pub fn plan_from_members(self, is_object: bool, members: &Vec<ParamScalar>) -> (r: Result<
        QueryPlan,
        AppError,
    >)
        requires
            members.len() == kind_fields(self).len(),
        ensures
            plan_decoded(r, self, is_object, scalar_views(members@)),
    {
        let schema = self.parameter_schema();
        match check_members("Failed to parse parameters: ", &schema, is_object, members) {
            Err(e) => Err(e),
            Ok(()) => {
                let account_number = text_value(&members[0]);
                let plan = match self {
                    InsightKind::AllEntries => QueryPlan::AllEntries(
                        AllEntriesParams { account_number },
                    ),
                    InsightKind::BalanceEntries => QueryPlan::BalanceEntries(
                        BalanceEntriesParams { account_number },
                    ),
                    InsightKind::ProfitBySymbol => QueryPlan::ProfitBySymbol(
                        ProfitBySymbolParams {
                            account_number,
                            min_profit: number_value(&members[1]),
                        },
                    ),
                    InsightKind::TotalBalance => QueryPlan::TotalBalance(
                        TotalBalanceParams { account_number },
                    ),
                    InsightKind::TradeEntries => QueryPlan::TradeEntries(
                        TradeEntriesParams { account_number },
                    ),
                    InsightKind::TradeEntriesWithBalance => QueryPlan::TradeEntriesWithBalance(
                        TradeEntriesWithBalanceParams { account_number },
                    ),
                };
                Ok(plan)
            },
        }
    }
}

/// Parameters of the all-entries insight.
#[derive(Debug, Clone)]
pub struct AllEntriesParams {
    /// Source identifier: a file name, with or without the dataset extension.
    pub account_number: Option<String>,
}

/// Parameters of the balance-entries insight.
#[derive(Debug, Clone)]
pub struct BalanceEntriesParams {
    pub account_number: Option<String>,
}

/// Parameters of the profit-by-symbol insight.
#[derive(Debug, Clone)]
pub struct ProfitBySymbolParams {
    pub account_number: Option<String>,
    /// Groups whose total profit is below this threshold are dropped.
    pub min_profit: Option<Amount>,
}

/// Parameters of the total-balance insight.
#[derive(Debug, Clone)]
pub struct TotalBalanceParams {
    pub account_number: Option<String>,
}

/// Parameters of the trade-entries insight.
#[derive(Debug, Clone)]
pub struct TradeEntriesParams {
    pub account_number: Option<String>,
}

/// Parameters of the trade-entries-with-balance insight.
#[derive(Debug, Clone)]
pub struct TradeEntriesWithBalanceParams {
    pub account_number: Option<String>,
}

impl Default for BalanceEntriesParams {
    fn default() -> (r: Self)
        ensures
            r.account_number is None,
    {
        BalanceEntriesParams { account_number: None }
    }
}

impl Default for ProfitBySymbolParams {
    fn default() -> (r: Self)
        ensures
            r.account_number is None,
            r.min_profit is None,
    {
        ProfitBySymbolParams { account_number: None, min_profit: None }
    }
}

impl Default for TotalBalanceParams {
    fn default() -> (r: Self)
        ensures
            r.account_number is None,
    {
        TotalBalanceParams { account_number: None }
    }
}

impl Default for TradeEntriesWithBalanceParams {
    fn default() -> (r: Self)
        ensures
            r.account_number is None,
    {
        TradeEntriesWithBalanceParams { account_number: None }
    }
}

/// A decoded request: which insight runs, with its parameters.
#[derive(Debug, Clone)]
pub enum QueryPlan {
    AllEntries(AllEntriesParams),
    BalanceEntries(BalanceEntriesParams),
    ProfitBySymbol(ProfitBySymbolParams),
    TotalBalance(TotalBalanceParams),
    TradeEntries(TradeEntriesParams),
    TradeEntriesWithBalance(TradeEntriesWithBalanceParams),
}

pub open spec fn plan_kind(p: QueryPlan) -> InsightKind {
    match p {
        QueryPlan::AllEntries(_) => InsightKind::AllEntries,
        QueryPlan::BalanceEntries(_) => InsightKind::BalanceEntries,
        QueryPlan::ProfitBySymbol(_) => InsightKind::ProfitBySymbol,
        QueryPlan::TotalBalance(_) => InsightKind::TotalBalance,
        QueryPlan::TradeEntries(_) => InsightKind::TradeEntries,
        QueryPlan::TradeEntriesWithBalance(_) => InsightKind::TradeEntriesWithBalance,
    }
}

pub open spec fn plan_account(p: QueryPlan) -> Option<Seq<char>> {
    match p {
        QueryPlan::AllEntries(q) => text_view(q.account_number),
        QueryPlan::BalanceEntries(q) => text_view(q.account_number),
        QueryPlan::ProfitBySymbol(q) => text_view(q.account_number),
        QueryPlan::TotalBalance(q) => text_view(q.account_number),
        QueryPlan::TradeEntries(q) => text_view(q.account_number),
        QueryPlan::TradeEntriesWithBalance(q) => text_view(q.account_number),
    }
}

pub open spec fn plan_min_profit(p: QueryPlan) -> Option<Amount> {
    match p {
        QueryPlan::ProfitBySymbol(q) => q.min_profit,
        _ => None,
    }
}

/// `r` is the decoding of a payload for insight `k`: the check's error, or
/// the plan of `k` holding the decoded members.
pub open spec fn plan_decoded(
    r: Result<QueryPlan, AppError>,
    k: InsightKind,
    is_object: bool,
    members: Seq<ScalarView>,
) -> bool {
    match payload_check("Failed to parse parameters: "@, kind_fields(k), is_object, members) {
        Err(m) => r matches Err(e) && e.message@ == m,
        Ok(()) => r matches Ok(p) && plan_for(p, k, members),
    }
}

/// `p` is the plan of insight `k` holding the decoded members.
pub open spec fn plan_for(p: QueryPlan, k: InsightKind, members: Seq<ScalarView>) -> bool {
    &&& plan_kind(p) == k
    &&& plan_account(p) == text_member(members[0])
    &&& plan_min_profit(p) == if k == InsightKind::ProfitBySymbol {
        number_member(members[1])
    } else {
        None
    }
}

impl QueryPlan {
    pub fn kind(&self) -> (r: InsightKind)
        ensures
            r == plan_kind(*self),
    {
        match self {
            QueryPlan::AllEntries(_) => InsightKind::AllEntries,
            QueryPlan::BalanceEntries(_) => InsightKind::BalanceEntries,
            QueryPlan::ProfitBySymbol(_) => InsightKind::ProfitBySymbol,
            QueryPlan::TotalBalance(_) => InsightKind::TotalBalance,
            QueryPlan::TradeEntries(_) => InsightKind::TradeEntries,
            QueryPlan::TradeEntriesWithBalance(_) => InsightKind::TradeEntriesWithBalance,
        }
    }

    /// The source identifier, if the request names one.
    pub fn account_number(&self) -> (r: &Option<String>)
        ensures
            text_view(*r) == plan_account(*self),
    {
        match self {
            QueryPlan::AllEntries(q) => &q.account_number,
            QueryPlan::BalanceEntries(q) => &q.account_number,
            QueryPlan::ProfitBySymbol(q) => &q.account_number,
            QueryPlan::TotalBalance(q) => &q.account_number,
            QueryPlan::TradeEntries(q) => &q.account_number,
            QueryPlan::TradeEntriesWithBalance(q) => &q.account_number,
        }
    }

    /// Runs the plan's query over the datasets read from its source files.
    /// Entry insights give their rows; the total balance gives the profits
    /// to sum; profit by symbol gives its groups and threshold, whose sums,
    /// averages, threshold filter and descending order by total profit are
    /// floating-point work left to the caller.
    pub fn run(&self, datasets: &Vec<DealColumns>) -> (r: QueryOutcome)
        ensures
            match kind_filter(plan_kind(*self)) {
                Some(f) => r matches QueryOutcome::Rows(rows) && row_views(rows@) == entries(
                    dataset_views(datasets@),
                    f,
                ).map_values(|d: DealView| deal_row(d)),
                None => if plan_kind(*self) == InsightKind::TotalBalance {
                    r matches QueryOutcome::BalanceTerms(t) && t@ == selected_profits(
                        dataset_views(datasets@),
                        EntryFilter::Balance,
                    )
                } else {
                    r matches QueryOutcome::SymbolGroups { groups, min_profit } && group_views(
                        groups@,
                    ) == group_rows(all_rows(dataset_views(datasets@))) && min_profit
                        == plan_min_profit(*self)
                },
            },
    {
        let kind = self.kind();
        match kind.entry_filter() {
            Some(f) => {
                let deals = query_entries(datasets, f);
                let rows = deal_rows(&deals);
                proof {
                    let e = entries(dataset_views(datasets@), f);
                    assert(deals@.map_values(|d: crate::deal::Deal| deal_row(d@)) =~= e.map_values(
                        |d: DealView| deal_row(d),
                    )) by {
                        assert(crate::deal::deal_views(deals@) == e);
                        assert forall|i: int| 0 <= i < deals@.len() implies deals@[i]@ == e[i] by {
                            assert(crate::deal::deal_views(deals@)[i] == deals@[i]@);
                        }
                    }
                }
                QueryOutcome::Rows(rows)
            },
            None => {
                if kind == InsightKind::TotalBalance {
                    QueryOutcome::BalanceTerms(balance_terms(datasets))
                } else {
                    let min_profit = match self {
                        QueryPlan::ProfitBySymbol(q) => q.min_profit,
                        _ => None,
                    };
                    QueryOutcome::SymbolGroups { groups: group_by_symbol(datasets), min_profit }
                }
            },
        }
    }
}

/// What running a plan's query gave.
#[derive(Debug, Clone)]
pub enum QueryOutcome {
    /// The result rows of an entry insight.
    Rows(Vec<ResultRow>),
    /// The profits whose sum is the total balance.
    BalanceTerms(Vec<Amount>),
    /// The symbol groups of profit by symbol, with its threshold.
    SymbolGroups { groups: Vec<SymbolGroup>, min_profit: Option<Amount> },
}

} // verus!
