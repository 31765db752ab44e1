//! The deal record, its columnar storage form, and the conversions between
//! them.
use vstd::prelude::*;

verus! {

/// A 64-bit IEEE-754 number, carried by its bit pattern. The library moves
/// such values between records, groups and result rows without doing
/// arithmetic on them.
#[derive(Clone, Copy, Debug, PartialEq, Eq, Structural)]
pub struct Amount {
    pub bits: u64,
}

impl Amount {
    pub fn from_bits(bits: u64) -> (r: Amount)
        ensures
            r.bits == bits,
    {
        Amount { bits }
    }

    pub fn to_bits(self) -> (r: u64)
        ensures
            r == self.bits,
    {
        self.bits
    }

    /// Positive zero, the value a missing number reads as.
    pub fn zero() -> (r: Amount)
        ensures
            r == zero_amount(),
    {
        Amount { bits: 0 }
    }
}

pub open spec fn zero_amount() -> Amount {
    Amount { bits: 0 }
}

/// One deal: an immutable trade or account-activity row. The column `type`
/// is held in `deal_type`.
#[derive(Debug, Clone)]
pub struct Deal {
    pub ticket: i64,
    pub order: i64,
    pub time: i64,
    pub time_msc: i64,
    pub deal_type: i64,
    pub entry: i64,
    pub magic: i64,
    pub position_id: i64,
    pub reason: i64,
    pub volume: Amount,
    pub price: Amount,
    pub commission: Amount,
    pub swap: Amount,
    pub profit: Amount,
    pub fee: Amount,
    pub symbol: String,
    pub comment: String,
    pub external_id: String,
}

/// A deal with its text fields as character sequences.
pub struct DealView {
    pub ticket: i64,
    pub order: i64,
    pub time: i64,
    pub time_msc: i64,
    pub deal_type: i64,
    pub entry: i64,
    pub magic: i64,
    pub position_id: i64,
    pub reason: i64,
    pub volume: Amount,
    pub price: Amount,
    pub commission: Amount,
    pub swap: Amount,
    pub profit: Amount,
    pub fee: Amount,
    pub symbol: Seq<char>,
    pub comment: Seq<char>,
    pub external_id: Seq<char>,
}

impl View for Deal {
    type V = DealView;

    open spec fn view(&self) -> DealView {
        DealView {
            ticket: self.ticket,
            order: self.order,
            time: self.time,
            time_msc: self.time_msc,
            deal_type: self.deal_type,
            entry: self.entry,
            magic: self.magic,
            position_id: self.position_id,
            reason: self.reason,
            volume: self.volume,
            price: self.price,
            commission: self.commission,
            swap: self.swap,
            profit: self.profit,
            fee: self.fee,
            symbol: self.symbol@,
            comment: self.comment@,
            external_id: self.external_id@,
        }
    }
}

/// The views of a sequence of deals.
pub open spec fn deal_views(s: Seq<Deal>) -> Seq<DealView> {
    s.map_values(|d: Deal| d@)
}

/// A dataset in columnar form, as a storage file holds it: one column per
/// field, where a cell may be missing. `height` is the number of rows.
#[derive(Debug, Clone)]
pub struct DealColumns {
    pub height: usize,
    pub ticket: Vec<Option<i64>>,
    pub order: Vec<Option<i64>>,
    pub time: Vec<Option<i64>>,
    pub time_msc: Vec<Option<i64>>,
    pub deal_type: Vec<Option<i64>>,
    pub entry: Vec<Option<i64>>,
    pub magic: Vec<Option<i64>>,
    pub position_id: Vec<Option<i64>>,
    pub reason: Vec<Option<i64>>,
    pub volume: Vec<Option<Amount>>,
    pub price: Vec<Option<Amount>>,
    pub commission: Vec<Option<Amount>>,
    pub swap: Vec<Option<Amount>>,
    pub profit: Vec<Option<Amount>>,
    pub fee: Vec<Option<Amount>>,
    pub symbol: Vec<Option<String>>,
    pub comment: Vec<Option<String>>,
    pub external_id: Vec<Option<String>>,
}

#[verifier::ext_equal]
pub struct DealColumnsView {
    pub height: nat,
    pub ticket: Seq<Option<i64>>,
    pub order: Seq<Option<i64>>,
    pub time: Seq<Option<i64>>,
    pub time_msc: Seq<Option<i64>>,
    pub deal_type: Seq<Option<i64>>,
    pub entry: Seq<Option<i64>>,
    pub magic: Seq<Option<i64>>,
    pub position_id: Seq<Option<i64>>,
    pub reason: Seq<Option<i64>>,
    pub volume: Seq<Option<Amount>>,
    pub price: Seq<Option<Amount>>,
    pub commission: Seq<Option<Amount>>,
    pub swap: Seq<Option<Amount>>,
    pub profit: Seq<Option<Amount>>,
    pub fee: Seq<Option<Amount>>,
    pub symbol: Seq<Option<Seq<char>>>,
    pub comment: Seq<Option<Seq<char>>>,
    pub external_id: Seq<Option<Seq<char>>>,
}

pub open spec fn text_view(o: Option<String>) -> Option<Seq<char>> {
    match o {
        Some(s) => Some(s@),
        None => None,
    }
}

pub open spec fn text_column_view(c: Seq<Option<String>>) -> Seq<Option<Seq<char>>> {
    c.map_values(|o: Option<String>| text_view(o))
}

impl View for DealColumns {
    type V = DealColumnsView;

    open spec fn view(&self) -> DealColumnsView {
        DealColumnsView {
            height: self.height as nat,
            ticket: self.ticket@,
            order: self.order@,
            time: self.time@,
            time_msc: self.time_msc@,
            deal_type: self.deal_type@,
            entry: self.entry@,
            magic: self.magic@,
            position_id: self.position_id@,
            reason: self.reason@,
            volume: self.volume@,
            price: self.price@,
            commission: self.commission@,
            swap: self.swap@,
            profit: self.profit@,
            fee: self.fee@,
            symbol: text_column_view(self.symbol@),
            comment: text_column_view(self.comment@),
            external_id: text_column_view(self.external_id@),
        }
    }
}

/// Cell `i` of an integer column; a missing cell reads as zero.
pub open spec fn int_cell(c: Seq<Option<i64>>, i: int) -> i64 {
    if 0 <= i < c.len() && c[i] is Some {
        c[i]->0
    } else {
        0
    }
}

/// Cell `i` of a number column; a missing cell reads as zero.
pub open spec fn amount_cell(c: Seq<Option<Amount>>, i: int) -> Amount {
    if 0 <= i < c.len() && c[i] is Some {
        c[i]->0
    } else {
        zero_amount()
    }
}

/// Cell `i` of a text column; a missing cell reads as the empty string.
pub open spec fn text_cell(c: Seq<Option<Seq<char>>>, i: int) -> Seq<char> {
    if 0 <= i < c.len() && c[i] is Some {
        c[i]->0
    } else {
        Seq::empty()
    }
}

/// Row `i` of a columnar dataset.
pub open spec fn row_at(c: DealColumnsView, i: int) -> DealView {
    DealView {
        ticket: int_cell(c.ticket, i),
        order: int_cell(c.order, i),
        time: int_cell(c.time, i),
        time_msc: int_cell(c.time_msc, i),
        deal_type: int_cell(c.deal_type, i),
        entry: int_cell(c.entry, i),
        magic: int_cell(c.magic, i),
        position_id: int_cell(c.position_id, i),
        reason: int_cell(c.reason, i),
        volume: amount_cell(c.volume, i),
        price: amount_cell(c.price, i),
        commission: amount_cell(c.commission, i),
        swap: amount_cell(c.swap, i),
        profit: amount_cell(c.profit, i),
        fee: amount_cell(c.fee, i),
        symbol: text_cell(c.symbol, i),
        comment: text_cell(c.comment, i),
        external_id: text_cell(c.external_id, i),
    }
}

/// The rows of a columnar dataset, in storage order.
pub open spec fn rows_of(c: DealColumnsView) -> Seq<DealView> {
    Seq::new(c.height, |i: int| row_at(c, i))
}

/// The columnar form of a sequence of rows, with every cell present.
pub open spec fn columns_of(rows: Seq<DealView>) -> DealColumnsView {
    DealColumnsView {
        height: rows.len(),
        ticket: rows.map_values(|d: DealView| Some(d.ticket)),
        order: rows.map_values(|d: DealView| Some(d.order)),
        time: rows.map_values(|d: DealView| Some(d.time)),
        time_msc: rows.map_values(|d: DealView| Some(d.time_msc)),
        deal_type: rows.map_values(|d: DealView| Some(d.deal_type)),
        entry: rows.map_values(|d: DealView| Some(d.entry)),
        magic: rows.map_values(|d: DealView| Some(d.magic)),
        position_id: rows.map_values(|d: DealView| Some(d.position_id)),
        reason: rows.map_values(|d: DealView| Some(d.reason)),
        volume: rows.map_values(|d: DealView| Some(d.volume)),
        price: rows.map_values(|d: DealView| Some(d.price)),
        commission: rows.map_values(|d: DealView| Some(d.commission)),
        swap: rows.map_values(|d: DealView| Some(d.swap)),
        profit: rows.map_values(|d: DealView| Some(d.profit)),
        fee: rows.map_values(|d: DealView| Some(d.fee)),
        symbol: rows.map_values(|d: DealView| Some(d.symbol)),
        comment: rows.map_values(|d: DealView| Some(d.comment)),
        external_id: rows.map_values(|d: DealView| Some(d.external_id)),
    }
}

/// Writing rows into columnar form and reading them back gives the same
/// rows, field for field.
pub proof fn lemma_columns_round_trip(rows: Seq<DealView>)
    ensures
        rows_of(columns_of(rows)) == rows,
{
    assert(rows_of(columns_of(rows)) =~= rows);
}

fn int_at(c: &Vec<Option<i64>>, i: usize) -> (r: i64)
    ensures
        r == int_cell(c@, i as int),
{
    if i < c.len() {
        match c[i] {
            Some(v) => v,
            None => 0,
        }
    } else {
        0
    }
}

fn amount_at(c: &Vec<Option<Amount>>, i: usize) -> (r: Amount)
    ensures
        r == amount_cell(c@, i as int),
{
    if i < c.len() {
        match c[i] {
            Some(v) => v,
            None => Amount::zero(),
        }
    } else {
        Amount::zero()
    }
}

fn text_at(c: &Vec<Option<String>>, i: usize) -> (r: String)
    ensures
        r@ == text_cell(text_column_view(c@), i as int),
{
    if i < c.len() {
        match &c[i] {
            Some(v) => v.clone(),
            None => String::new(),
        }
    } else {
        String::new()
    }
}

impl DealColumns {
    /// Row `i`, with missing cells read as zero or the empty string.
    pub fn row(&self, i: usize) -> (r: Deal)
        ensures
            r@ == row_at(self@, i as int),
    {
        Deal {
            ticket: int_at(&self.ticket, i),
            order: int_at(&self.order, i),
            time: int_at(&self.time, i),
            time_msc: int_at(&self.time_msc, i),
            deal_type: int_at(&self.deal_type, i),
            entry: int_at(&self.entry, i),
            magic: int_at(&self.magic, i),
            position_id: int_at(&self.position_id, i),
            reason: int_at(&self.reason, i),
            volume: amount_at(&self.volume, i),
            price: amount_at(&self.price, i),
            commission: amount_at(&self.commission, i),
            swap: amount_at(&self.swap, i),
            profit: amount_at(&self.profit, i),
            fee: amount_at(&self.fee, i),
            symbol: text_at(&self.symbol, i),
            comment: text_at(&self.comment, i),
            external_id: text_at(&self.external_id, i),
        }
    }

    /// Converts the dataset to row-major records, in storage order.
    pub fn to_deals(&self) -> (r: Vec<Deal>)
        ensures
            deal_views(r@) == rows_of(self@),
    {
        let mut out: Vec<Deal> = Vec::new();
        let mut i: usize = 0;
        while i < self.height
            invariant
                i <= self.height,
                deal_views(out@) =~= rows_of(self@).subrange(0, i as int),
            decreases self.height - i,
        {
            let d = self.row(i);
            let ghost before = out@;
            out.push(d);
            assert(deal_views(out@) =~= deal_views(before).push(d@));
            i = i + 1;
        }
        assert(rows_of(self@).subrange(0, self.height as int) =~= rows_of(self@));
        out
    }

    /// Writes rows into columnar form, every cell present.
    pub fn from_deals(rows: &Vec<Deal>) -> (r: DealColumns)
        ensures
            r@ == columns_of(deal_views(rows@)),
    {
        let mut c = DealColumns {
            height: 0,
            ticket: Vec::new(),
            order: Vec::new(),
            time: Vec::new(),
            time_msc: Vec::new(),
            deal_type: Vec::new(),
            entry: Vec::new(),
            magic: Vec::new(),
            position_id: Vec::new(),
            reason: Vec::new(),
            volume: Vec::new(),
            price: Vec::new(),
            commission: Vec::new(),
            swap: Vec::new(),
            profit: Vec::new(),
            fee: Vec::new(),
            symbol: Vec::new(),
            comment: Vec::new(),
            external_id: Vec::new(),
        };
        let mut i: usize = 0;
        while i < rows.len()
            invariant
                i <= rows.len(),
                c@ =~= columns_of(deal_views(rows@.subrange(0, i as int))),
            decreases rows.len() - i,
        {
            let d = &rows[i];
            let ghost s0 = c.symbol@;
            let ghost m0 = c.comment@;
            let ghost e0 = c.external_id@;
            c.height = i + 1;
            c.ticket.push(Some(d.ticket));
            c.order.push(Some(d.order));
            c.time.push(Some(d.time));
            c.time_msc.push(Some(d.time_msc));
            c.deal_type.push(Some(d.deal_type));
            c.entry.push(Some(d.entry));
            c.magic.push(Some(d.magic));
            c.position_id.push(Some(d.position_id));
            c.reason.push(Some(d.reason));
            c.volume.push(Some(d.volume));
            c.price.push(Some(d.price));
            c.commission.push(Some(d.commission));
            c.swap.push(Some(d.swap));
            c.profit.push(Some(d.profit));
            c.fee.push(Some(d.fee));
            c.symbol.push(Some(d.symbol.clone()));
            c.comment.push(Some(d.comment.clone()));
            c.external_id.push(Some(d.external_id.clone()));
            proof {
                let prev = deal_views(rows@.subrange(0, i as int));
                let next = deal_views(rows@.subrange(0, i + 1));
                assert(next =~= prev.push(rows@[i as int]@));
                assert(text_column_view(c.symbol@) =~= text_column_view(s0).push(Some(d.symbol@)));
                assert(text_column_view(c.comment@) =~= text_column_view(m0).push(Some(d.comment@)));
                assert(text_column_view(c.external_id@) =~= text_column_view(e0).push(
                    Some(d.external_id@),
                ));
                assert(c@ =~= columns_of(next));
            }
            i = i + 1;
        }
        assert(rows@.subrange(0, rows.len() as int) =~= rows@);
        c
    }
}

/// Storing rows in columnar form and reading them back yields the same
/// number of rows, each equal to the row written, field for field.
pub proof fn lemma_deals_round_trip(rows: Seq<Deal>)
    ensures
        rows_of(columns_of(deal_views(rows))) == deal_views(rows),
{
    lemma_columns_round_trip(deal_views(rows));
}

} // verus!
