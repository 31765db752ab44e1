//! Requests and responses of the insight executors, and the row-oriented
//! result format.
use vstd::prelude::*;
use crate::deal::{Amount, Deal, DealView};
use crate::text::{decimal, decimal_text, string_views};

verus! {

/// One value of a result row.
#[derive(Debug, Clone)]
pub enum Cell {
    Int(i64),
    Number(Amount),
    Text(String),
}

pub enum CellView {
    Int(i64),
    Number(Amount),
    Text(Seq<char>),
}

impl View for Cell {
    type V = CellView;

    open spec fn view(&self) -> CellView {
        match self {
            Cell::Int(v) => CellView::Int(*v),
            Cell::Number(a) => CellView::Number(*a),
            Cell::Text(s) => CellView::Text(s@),
        }
    }
}

/// A result row: field names with their values, in ascending name order as
/// a JSON object lists them.
#[derive(Debug, Clone)]
pub struct ResultRow {
    pub fields: Vec<(String, Cell)>,
}

pub open spec fn field_view(p: (String, Cell)) -> (Seq<char>, CellView) {
    (p.0@, p.1@)
}

impl View for ResultRow {
    type V = Seq<(Seq<char>, CellView)>;

    open spec fn view(&self) -> Seq<(Seq<char>, CellView)> {
        self.fields@.map_values(|p: (String, Cell)| field_view(p))
    }
}

/// The field names of a row, in order.
pub open spec fn row_keys(r: Seq<(Seq<char>, CellView)>) -> Seq<Seq<char>> {
    r.map_values(|p: (Seq<char>, CellView)| p.0)
}

/// The column list of a result: the keys of its first row, or none.
pub open spec fn result_columns(rows: Seq<ResultRow>) -> Seq<Seq<char>> {
    if rows.len() == 0 {
        Seq::empty()
    } else {
        row_keys(rows[0]@)
    }
}

/// The column names of a result, taken from the keys of its first row;
/// empty when there is no row.
pub fn extract_columns(rows: &Vec<ResultRow>) -> (r: Vec<String>)
    ensures
        string_views(r@) == result_columns(rows@),
{
    let mut out: Vec<String> = Vec::new();
    if rows.len() == 0 {
        assert(string_views(out@) =~= result_columns(rows@));
        return out;
    }
    let first = &rows[0];
    let ghost keys = row_keys(first@);
    let mut i: usize = 0;
    while i < first.fields.len()
        invariant
            i <= first.fields.len(),
            first == &rows@[0],
            keys == row_keys(first@),
            string_views(out@) =~= keys.subrange(0, i as int),
        decreases first.fields.len() - i,
    {
        let ghost before = out@;
        out.push(first.fields[i].0.clone());
        assert(string_views(out@) =~= string_views(before).push(first.fields@[i as int].0@));
        i = i + 1;
    }
    assert(keys.subrange(0, first.fields.len() as int) =~= keys);
    out
}

/// The row of a deal, fields in ascending name order.
pub open spec fn deal_row(d: DealView) -> Seq<(Seq<char>, CellView)> {
    seq![
        ("comment"@, CellView::Text(d.comment)),
        ("commission"@, CellView::Number(d.commission)),
        ("entry"@, CellView::Int(d.entry)),
        ("external_id"@, CellView::Text(d.external_id)),
        ("fee"@, CellView::Number(d.fee)),
        ("magic"@, CellView::Int(d.magic)),
        ("order"@, CellView::Int(d.order)),
        ("position_id"@, CellView::Int(d.position_id)),
        ("price"@, CellView::Number(d.price)),
        ("profit"@, CellView::Number(d.profit)),
        ("reason"@, CellView::Int(d.reason)),
        ("swap"@, CellView::Number(d.swap)),
        ("symbol"@, CellView::Text(d.symbol)),
        ("ticket"@, CellView::Int(d.ticket)),
        ("time"@, CellView::Int(d.time)),
        ("time_msc"@, CellView::Int(d.time_msc)),
        ("type"@, CellView::Int(d.deal_type)),
        ("volume"@, CellView::Number(d.volume)),
    ]
}

impl ResultRow {
    /// The result row of a deal.
    pub fn from_deal(d: &Deal) -> (r: ResultRow)
        ensures
            r@ == deal_row(d@),
    {
        let fields = vec![
            (String::from_str("comment"), Cell::Text(d.comment.clone())),
            (String::from_str("commission"), Cell::Number(d.commission)),
            (String::from_str("entry"), Cell::Int(d.entry)),
            (String::from_str("external_id"), Cell::Text(d.external_id.clone())),
            (String::from_str("fee"), Cell::Number(d.fee)),
            (String::from_str("magic"), Cell::Int(d.magic)),
            (String::from_str("order"), Cell::Int(d.order)),
            (String::from_str("position_id"), Cell::Int(d.position_id)),
            (String::from_str("price"), Cell::Number(d.price)),
            (String::from_str("profit"), Cell::Number(d.profit)),
            (String::from_str("reason"), Cell::Int(d.reason)),
            (String::from_str("swap"), Cell::Number(d.swap)),
            (String::from_str("symbol"), Cell::Text(d.symbol.clone())),
            (String::from_str("ticket"), Cell::Int(d.ticket)),
            (String::from_str("time"), Cell::Int(d.time)),
            (String::from_str("time_msc"), Cell::Int(d.time_msc)),
            (String::from_str("type"), Cell::Int(d.deal_type)),
            (String::from_str("volume"), Cell::Number(d.volume)),
        ];
        let r = ResultRow { fields };
        assert(r@ =~= deal_row(d@));
        r
    }
}

pub open spec fn row_views(rows: Seq<ResultRow>) -> Seq<Seq<(Seq<char>, CellView)>> {
    rows.map_values(|r: ResultRow| r@)
}

/// The result rows of a sequence of deals, in order.
pub fn deal_rows(deals: &Vec<Deal>) -> (r: Vec<ResultRow>)
    ensures
        row_views(r@) == deals@.map_values(|d: Deal| deal_row(d@)),
{
    let mut out: Vec<ResultRow> = Vec::new();
    let mut i: usize = 0;
    while i < deals.len()
        invariant
            i <= deals.len(),
            row_views(out@) =~= deals@.subrange(0, i as int).map_values(|d: Deal| deal_row(d@)),
        decreases deals.len() - i,
    {
        let ghost before = out@;
        let row = ResultRow::from_deal(&deals[i]);
        out.push(row);
        assert(row_views(out@) =~= row_views(before).push(row@));
        assert(deals@.subrange(0, i + 1).map_values(|d: Deal| deal_row(d@)) =~= deals@.subrange(
            0,
            i as int,
        ).map_values(|d: Deal| deal_row(d@)).push(deal_row(deals@[i as int]@)));
        i = i + 1;
    }
    assert(deals@.subrange(0, deals.len() as int) =~= deals@);
    out
}

/// One group of the profit-by-symbol result.
#[derive(Debug, Clone)]
pub struct ProfitBySymbolResult {
    pub symbol: String,
    pub total_profit: Amount,
    pub total_volume: Amount,
    pub trade_count: i64,
    pub avg_profit: Amount,
}

pub open spec fn profit_row(p: ProfitBySymbolResult) -> Seq<(Seq<char>, CellView)> {
    seq![
        ("avg_profit"@, CellView::Number(p.avg_profit)),
        ("symbol"@, CellView::Text(p.symbol@)),
        ("total_profit"@, CellView::Number(p.total_profit)),
        ("total_volume"@, CellView::Number(p.total_volume)),
        ("trade_count"@, CellView::Int(p.trade_count)),
    ]
}

impl ProfitBySymbolResult {
    pub fn to_row(&self) -> (r: ResultRow)
        ensures
            r@ == profit_row(*self),
    {
        let fields = vec![
            (String::from_str("avg_profit"), Cell::Number(self.avg_profit)),
            (String::from_str("symbol"), Cell::Text(self.symbol.clone())),
            (String::from_str("total_profit"), Cell::Number(self.total_profit)),
            (String::from_str("total_volume"), Cell::Number(self.total_volume)),
            (String::from_str("trade_count"), Cell::Int(self.trade_count)),
        ];
        let r = ResultRow { fields };
        assert(r@ =~= profit_row(*self));
        r
    }
}

/// The result rows of the profit-by-symbol groups, in their order.
pub fn profit_rows(results: &Vec<ProfitBySymbolResult>) -> (r: Vec<ResultRow>)
    ensures
        row_views(r@) == results@.map_values(|p: ProfitBySymbolResult| profit_row(p)),
{
    let mut out: Vec<ResultRow> = Vec::new();
    let mut i: usize = 0;
    while i < results.len()
        invariant
            i <= results.len(),
            row_views(out@) =~= results@.subrange(0, i as int).map_values(
                |p: ProfitBySymbolResult| profit_row(p),
            ),
        decreases results.len() - i,
    {
        let ghost before = out@;
        let row = results[i].to_row();
        out.push(row);
        assert(row_views(out@) =~= row_views(before).push(row@));
        assert(results@.subrange(0, i + 1).map_values(|p: ProfitBySymbolResult| profit_row(p))
            =~= results@.subrange(0, i as int).map_values(|p: ProfitBySymbolResult| profit_row(p)).push(
            profit_row(results@[i as int]),
        ));
        i = i + 1;
    }
    assert(results@.subrange(0, results.len() as int) =~= results@);
    out
}

/// The total-balance result.
#[derive(Debug, Clone, Copy)]
pub struct TotalBalanceResult {
    pub total_balance: Amount,
}

impl TotalBalanceResult {
    /// The result as rows: one row with the total.
    pub fn to_rows(&self) -> (r: Vec<ResultRow>)
        ensures
            row_views(r@) == seq![seq![("total_balance"@, CellView::Number(self.total_balance))]],
    {
        let fields = vec![(String::from_str("total_balance"), Cell::Number(self.total_balance))];
        let row = ResultRow { fields };
        assert(row@ =~= seq![("total_balance"@, CellView::Number(self.total_balance))]);
        let rows = vec![row];
        assert(row_views(rows@) =~= seq![row@]);
        rows
    }
}

/// A request to run one insight.
#[derive(Debug)]
pub struct InsightRequest {
    pub insight_id: String,
    /// Parameters, in the shape that the insight declares.
    pub parameters: serde_json::Value,
}

/// Outcome of one insight: success with rows and their columns, or failure
/// with a message. Both are ordinary values.
#[derive(Debug, Clone)]
pub struct InsightResponse {
    pub success: bool,
    pub data: Option<Vec<ResultRow>>,
    pub error: Option<String>,
    pub columns: Vec<String>,
}

impl InsightResponse {
    pub fn success(data: Vec<ResultRow>, columns: Vec<String>) -> (r: InsightResponse)
        ensures
            r.success,
            r.data == Some(data),
            r.error is None,
            r.columns == columns,
    {
        InsightResponse { success: true, data: Some(data), error: None, columns }
    }

    pub fn error(message: String) -> (r: InsightResponse)
        ensures
            !r.success,
            r.data is None,
            r.error == Some(message),
            r.columns@.len() == 0,
    {
        InsightResponse { success: false, data: None, error: Some(message), columns: Vec::new() }
    }

    /// Success with the given rows, the columns taken from the first row.
    pub fn with_rows(rows: Vec<ResultRow>) -> (r: InsightResponse)
        ensures
            r.success,
            r.data == Some(rows),
            r.error is None,
            string_views(r.columns@) == result_columns(rows@),
    {
        let columns = extract_columns(&rows);
        InsightResponse::success(rows, columns)
    }

    /// The response for what running an insight gave: its rows with their
    /// columns, or its error message.
    pub fn from_execution(result: Result<Vec<ResultRow>, crate::error::AppError>) -> (r:
        InsightResponse)
        ensures
            match result {
                Ok(rows) => r.success && r.data == Some(rows) && r.error is None && string_views(
                    r.columns@,
                ) == result_columns(rows@),
                Err(e) => !r.success && r.data is None && r.error == Some(e.message)
                    && r.columns@.len() == 0,
            },
    {
        match result {
            Ok(rows) => InsightResponse::with_rows(rows),
            Err(e) => InsightResponse::error(e.message),
        }
    }
}

/// A batch of insight requests, run independently.
#[derive(Debug)]
pub struct BatchInsightRequest {
    pub requests: Vec<InsightRequest>,
}

impl BatchInsightRequest {
    /// The identifiers of the requests, in order.
    pub fn insight_ids(&self) -> (r: Vec<String>)
        ensures
            string_views(r@) == self.requests@.map_values(|q: InsightRequest| q.insight_id@),
    {
        let mut out: Vec<String> = Vec::new();
        let mut i: usize = 0;
        while i < self.requests.len()
            invariant
                i <= self.requests.len(),
                string_views(out@) =~= self.requests@.subrange(0, i as int).map_values(
                    |q: InsightRequest| q.insight_id@,
                ),
            decreases self.requests.len() - i,
        {
            let ghost before = out@;
            out.push(self.requests[i].insight_id.clone());
            assert(string_views(out@) =~= string_views(before).push(
                self.requests@[i as int].insight_id@,
            ));
            assert(self.requests@.subrange(0, i + 1).map_values(|q: InsightRequest| q.insight_id@)
                =~= self.requests@.subrange(0, i as int).map_values(
                |q: InsightRequest| q.insight_id@,
            ).push(self.requests@[i as int].insight_id@));
            i = i + 1;
        }
        assert(self.requests@.subrange(0, self.requests.len() as int) =~= self.requests@);
        out
    }
}

/// The outcome of one request of a batch, tagged with its identifier.
#[derive(Debug, Clone)]
pub struct BatchInsightItem {
    pub insight_id: String,
    pub success: bool,
    pub data: Option<Vec<ResultRow>>,
    pub error: Option<String>,
    pub columns: Vec<String>,
}

impl BatchInsightItem {
    pub fn success(insight_id: String, data: Vec<ResultRow>, columns: Vec<String>) -> (r:
        BatchInsightItem)
        ensures
            r.insight_id == insight_id,
            r.success,
            r.data == Some(data),
            r.error is None,
            r.columns == columns,
    {
        BatchInsightItem { insight_id, success: true, data: Some(data), error: None, columns }
    }

    pub fn error(insight_id: String, error_message: String) -> (r: BatchInsightItem)
        ensures
            r.insight_id == insight_id,
            !r.success,
            r.data is None,
            r.error == Some(error_message),
            r.columns@.len() == 0,
    {
        BatchInsightItem {
            insight_id,
            success: false,
            data: None,
            error: Some(error_message),
            columns: Vec::new(),
        }
    }
}

/// The outcomes of a batch, one per request, in request order.
#[derive(Debug, Clone)]
pub struct BatchInsightResponse {
    pub results: Vec<BatchInsightItem>,
}

/// What became of one unit of work of a batch.
#[derive(Debug)]
pub enum UnitOutcome {
    /// The unit ran: the executor's response, or the error it raised.
    Finished(Result<InsightResponse, String>),
    /// The unit itself could not be run; the message says why.
    Faulted(String),
}

/// The identifier a batch item is tagged with: that of its request, or a
/// placeholder made from its position.
pub open spec fn item_id(ids: Seq<Seq<char>>, i: int) -> Seq<char> {
    if 0 <= i < ids.len() {
        ids[i]
    } else {
        "unknown_"@ + decimal(i as nat)
    }
}

/// `item` is the batch item for an outcome, tagged with `id`.
pub open spec fn item_for(item: BatchInsightItem, id: Seq<char>, o: UnitOutcome) -> bool {
    &&& item.insight_id@ == id
    &&& match o {
        UnitOutcome::Finished(Ok(resp)) => if resp.success {
            &&& item.success
            &&& item.error is None
            &&& item.columns == resp.columns
            &&& match resp.data {
                Some(d) => item.data == Some(d),
                None => item.data matches Some(e) && e@.len() == 0,
            }
        } else {
            &&& !item.success
            &&& item.data is None
            &&& item.columns@.len() == 0
            &&& item.error matches Some(m) && m@ == match resp.error {
                Some(e) => e@,
                None => "Unknown error"@,
            }
        },
        UnitOutcome::Finished(Err(e)) => {
            &&& !item.success
            &&& item.data is None
            &&& item.columns@.len() == 0
            &&& item.error matches Some(m) && m@ == e@
        },
        UnitOutcome::Faulted(e) => {
            &&& !item.success
            &&& item.data is None
            &&& item.columns@.len() == 0
            &&& item.error matches Some(m) && m@ == "Join error: "@ + e@
        },
    }
}

fn batch_item(id: String, outcome: UnitOutcome) -> (r: BatchInsightItem)
    ensures
        item_for(r, id@, outcome),
{
    match outcome {
        UnitOutcome::Finished(Ok(resp)) => {
            if resp.success {
                let data = match resp.data {
                    Some(d) => d,
                    None => Vec::new(),
                };
                BatchInsightItem::success(id, data, resp.columns)
            } else {
                let message = match resp.error {
                    Some(e) => e,
                    None => String::from_str("Unknown error"),
                };
                BatchInsightItem::error(id, message)
            }
        },
        UnitOutcome::Finished(Err(e)) => BatchInsightItem::error(id, e),
        UnitOutcome::Faulted(e) => {
            let mut m = String::from_str("Join error: ");
            m.append(e.as_str());
            BatchInsightItem::error(id, m)
        },
    }
}

fn placeholder_id(i: usize) -> (r: String)
    ensures
        r@ == "unknown_"@ + decimal(i as nat),
{
    let mut s = String::from_str("unknown_");
    let n = decimal_text(i as u64);
    s.append(n.as_str());
    s
}

/// Reassembles the outcomes of a batch into its response: one item per
/// outcome, in the order of the requests however the units completed, each
/// tagged with its request's identifier and depending on its own outcome
/// alone.
pub fn assemble_batch(insight_ids: &Vec<String>, outcomes: Vec<UnitOutcome>) -> (r:
    BatchInsightResponse)
    ensures
        r.results@.len() == outcomes@.len(),
        forall|i: int|
            0 <= i < outcomes@.len() ==> item_for(
                #[trigger] r.results@[i],
                item_id(string_views(insight_ids@), i),
                outcomes@[i],
            ),
{
    let ghost ids = string_views(insight_ids@);
    let ghost all = outcomes@;
    let mut results: Vec<BatchInsightItem> = Vec::new();
    let mut index: usize = 0;
    let n = outcomes.len();
    for outcome in it: outcomes
        invariant
            ids == string_views(insight_ids@),
            all.len() == n,
            all == it.seq(),
            index == it.index(),
            results@.len() == index,
            forall|i: int| 0 <= i < index ==> item_for(#[trigger] results@[i], item_id(ids, i), all[i]),
    {
        let id = if index < insight_ids.len() {
            insight_ids[index].clone()
        } else {
            placeholder_id(index)
        };
        let item = batch_item(id, outcome);
        results.push(item);
        assert(index < n);
        index = index + 1;
    }
    BatchInsightResponse { results }
}

/// The rows of an optional result, as views.
pub open spec fn opt_rows(o: Option<Vec<ResultRow>>) -> Option<Seq<ResultRow>> {
    match o {
        Some(v) => Some(v@),
        None => None,
    }
}

pub open spec fn opt_text(o: Option<String>) -> Option<Seq<char>> {
    match o {
        Some(s) => Some(s@),
        None => None,
    }
}

/// Two batch items carry the same identifier, status, rows, error and
/// columns.
pub open spec fn same_item(a: BatchInsightItem, b: BatchInsightItem) -> bool {
    &&& a.insight_id@ == b.insight_id@
    &&& a.success == b.success
    &&& opt_rows(a.data) == opt_rows(b.data)
    &&& opt_text(a.error) == opt_text(b.error)
    &&& string_views(a.columns@) == string_views(b.columns@)
}

/// Each item of a batch depends on its request's identifier and its own
/// outcome alone: two assembled batches whose outcomes agree at a position,
/// for requests of the same identifier, carry the same item there, whatever
/// the other requests gave.
pub proof fn lemma_batch_isolation(
    ids1: Seq<Seq<char>>,
    outcomes1: Seq<UnitOutcome>,
    results1: Seq<BatchInsightItem>,
    ids2: Seq<Seq<char>>,
    outcomes2: Seq<UnitOutcome>,
    results2: Seq<BatchInsightItem>,
    i: int,
    j: int,
)
    requires
        results1.len() == outcomes1.len(),
        forall|k: int| 0 <= k < outcomes1.len() ==> item_for(#[trigger] results1[k], item_id(ids1, k), outcomes1[k]),
        results2.len() == outcomes2.len(),
        forall|k: int| 0 <= k < outcomes2.len() ==> item_for(#[trigger] results2[k], item_id(ids2, k), outcomes2[k]),
        0 <= i < outcomes1.len(),
        0 <= j < outcomes2.len(),
        item_id(ids1, i) == item_id(ids2, j),
        outcomes1[i] == outcomes2[j],
    ensures
        same_item(results1[i], results2[j]),
{
    let a = results1[i];
    let b = results2[j];
    assert(item_for(a, item_id(ids1, i), outcomes1[i]));
    assert(item_for(b, item_id(ids2, j), outcomes2[j]));
    assert(string_views(a.columns@) =~= string_views(b.columns@)) by {
        match outcomes1[i] {
            UnitOutcome::Finished(Ok(resp)) => {},
            _ => {},
        }
    }
    match outcomes1[i] {
        UnitOutcome::Finished(Ok(resp)) => {
            if resp.success && resp.data is None {
                assert(a.data->0@ =~= b.data->0@);
            }
        },
        _ => {},
    }
}

/// A request that fails to run yields a failure item with that message,
/// whatever the other requests of the batch gave.
pub proof fn lemma_failed_request_item(
    ids: Seq<Seq<char>>,
    outcomes: Seq<UnitOutcome>,
    results: Seq<BatchInsightItem>,
    i: int,
    message: String,
)
    requires
        results.len() == outcomes.len(),
        forall|k: int| 0 <= k < outcomes.len() ==> item_for(#[trigger] results[k], item_id(ids, k), outcomes[k]),
        0 <= i < outcomes.len(),
        outcomes[i] == UnitOutcome::Finished(Err(message)),
    ensures
        results[i].insight_id@ == item_id(ids, i),
        !results[i].success,
        results[i].data is None,
        results[i].columns@.len() == 0,
        opt_text(results[i].error) == Some(message@),
{
    assert(item_for(results[i], item_id(ids, i), outcomes[i]));
}

} // verus!
