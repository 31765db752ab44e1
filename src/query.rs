//! The deal query library: which stored files a query reads, the row filters
//! of the entry queries, the time ordering of their results, and the
//! grouping and selection behind the aggregate queries.
use vstd::prelude::*;
use crate::deal::{
    Amount, Deal, DealColumns, DealColumnsView, DealView, deal_views, rows_of, text_view,
};
use crate::error::AppError;
use crate::text::{has_suffix, ends_with, join_path, joined, same_text, string_views};
use vstd::multiset::Multiset;

verus! {

/// The row filter of an entry query.
#[derive(Clone, Copy, Debug, PartialEq, Eq, Structural)]
pub enum EntryFilter {
    /// Every row.
    All,
    /// Balance operations: `type == 2` and `entry == 0`.
    Balance,
    /// Trade entries: `entry == 1`.
    Trade,
    /// Trade entries and balance-type rows: `entry == 1` or `type == 2`.
    TradeWithBalance,
}

/// The filter keeps row `d`.
pub open spec fn keeps(f: EntryFilter, d: DealView) -> bool {
    match f {
        EntryFilter::All => true,
        EntryFilter::Balance => d.deal_type == 2 && d.entry == 0,
        EntryFilter::Trade => d.entry == 1,
        EntryFilter::TradeWithBalance => d.entry == 1 || d.deal_type == 2,
    }
}

impl EntryFilter {
    pub fn keeps(&self, d: &Deal) -> (r: bool)
        ensures
            r == keeps(*self, d@),
    {
        match self {
            EntryFilter::All => true,
            EntryFilter::Balance => d.deal_type == 2 && d.entry == 0,
            EntryFilter::Trade => d.entry == 1,
            EntryFilter::TradeWithBalance => d.entry == 1 || d.deal_type == 2,
        }
    }
}

/// The rows that `f` keeps, in their order.
pub open spec fn select(rows: Seq<DealView>, f: EntryFilter) -> Seq<DealView>
    decreases rows.len(),
{
    if rows.len() == 0 {
        Seq::empty()
    } else {
        let p = select(rows.drop_last(), f);
        if keeps(f, rows.last()) {
            p.push(rows.last())
        } else {
            p
        }
    }
}

/// `x` inserted into `s` after every row whose time is not later than its
/// own.
pub open spec fn insert_by_time(s: Seq<DealView>, x: DealView) -> Seq<DealView>
    decreases s.len(),
{
    if s.len() == 0 {
        seq![x]
    } else if s.last().time <= x.time {
        s.push(x)
    } else {
        insert_by_time(s.drop_last(), x).push(s.last())
    }
}

/// The rows ordered by ascending time; rows of equal time keep their order.
pub open spec fn sort_by_time(s: Seq<DealView>) -> Seq<DealView>
    decreases s.len(),
{
    if s.len() == 0 {
        Seq::empty()
    } else {
        insert_by_time(sort_by_time(s.drop_last()), s.last())
    }
}

pub open spec fn dataset_views(ds: Seq<DealColumns>) -> Seq<DealColumnsView> {
    ds.map_values(|d: DealColumns| d@)
}

/// The rows of several datasets stacked in order.
pub open spec fn all_rows(ds: Seq<DealColumnsView>) -> Seq<DealView>
    decreases ds.len(),
{
    if ds.len() == 0 {
        Seq::empty()
    } else {
        all_rows(ds.drop_last()) + rows_of(ds.last())
    }
}

/// Result of an entry query: the kept rows of all datasets, by time.
pub open spec fn entries(ds: Seq<DealColumnsView>, f: EntryFilter) -> Seq<DealView> {
    sort_by_time(select(all_rows(ds), f))
}

fn insert_sorted(sorted: &mut Vec<Deal>, d: Deal)
    ensures
        deal_views(final(sorted)@) == insert_by_time(deal_views(old(sorted)@), d@),
{
    let ghost s = deal_views(sorted@);
    let ghost x = d@;
    let mut pos = sorted.len();
    assert(s.subrange(0, s.len() as int) =~= s);
    assert(s.subrange(s.len() as int, s.len() as int) =~= Seq::<DealView>::empty());
    while pos > 0 && sorted[pos - 1].time > d.time
        invariant
            pos <= sorted.len(),
            s == deal_views(sorted@),
            x == d@,
            insert_by_time(s, x) == insert_by_time(s.subrange(0, pos as int), x) + s.subrange(
                pos as int,
                s.len() as int,
            ),
        decreases pos,
    {
        let ghost t = s.subrange(0, pos as int);
        assert(t.drop_last() =~= s.subrange(0, pos - 1));
        assert(t.last() == s[pos - 1]);
        assert(insert_by_time(t.drop_last(), x).push(t.last()) + s.subrange(pos as int, s.len() as int)
            =~= insert_by_time(s.subrange(0, pos - 1), x) + s.subrange(pos - 1, s.len() as int));
        pos = pos - 1;
    }
    sorted.insert(pos, d);
    assert(deal_views(sorted@) =~= s.insert(pos as int, x));
    if pos == 0 {
        assert(s.subrange(0, 0) =~= Seq::<DealView>::empty());
        assert(s.insert(0, x) =~= seq![x] + s.subrange(0, s.len() as int));
    } else {
        assert(s.insert(pos as int, x) =~= s.subrange(0, pos as int).push(x) + s.subrange(
            pos as int,
            s.len() as int,
        ));
    }
}

/// Runs an entry query over the rows of the given datasets: keeps the rows
/// that `filter` accepts, stacks the datasets in order, and orders the result
/// by ascending time. Missing cells read as zero or the empty string.
pub fn query_entries(datasets: &Vec<DealColumns>, filter: EntryFilter) -> (r: Vec<Deal>)
    ensures
        deal_views(r@) == entries(dataset_views(datasets@), filter),
{
    let ghost dv = dataset_views(datasets@);
    let mut sorted: Vec<Deal> = Vec::new();
    let mut k: usize = 0;
    while k < datasets.len()
        invariant
            k <= datasets.len(),
            dv == dataset_views(datasets@),
            deal_views(sorted@) == sort_by_time(select(all_rows(dv.subrange(0, k as int)), filter)),
        decreases datasets.len() - k,
    {
        let ds = &datasets[k];
        let ghost base = all_rows(dv.subrange(0, k as int));
        assert(dv.subrange(0, k + 1).drop_last() =~= dv.subrange(0, k as int));
        assert(dv.subrange(0, k + 1).last() == ds@);
        let mut i: usize = 0;
        assert(base + rows_of(ds@).subrange(0, 0) =~= base);
        while i < ds.height
            invariant
                i <= ds.height,
                ds == &datasets[k as int],
                deal_views(sorted@) == sort_by_time(
                    select(base + rows_of(ds@).subrange(0, i as int), filter),
                ),
            decreases ds.height - i,
        {
            let d = ds.row(i);
            let ghost before = base + rows_of(ds@).subrange(0, i as int);
            let ghost after = base + rows_of(ds@).subrange(0, i + 1);
            assert(after.drop_last() =~= before);
            assert(after.last() == d@);
            if filter.keeps(&d) {
                assert(select(after, filter).drop_last() == select(before, filter));
                insert_sorted(&mut sorted, d);
            }
            i = i + 1;
        }
        assert(rows_of(ds@).subrange(0, ds.height as int) =~= rows_of(ds@));
        k = k + 1;
    }
    assert(dv.subrange(0, datasets.len() as int) =~= dv);
    sorted
}

/// The profits of the rows that `filter` keeps, in stacking order: the terms
/// of a balance total.
pub open spec fn selected_profits(ds: Seq<DealColumnsView>, f: EntryFilter) -> Seq<Amount> {
    select(all_rows(ds), f).map_values(|d: DealView| d.profit)
}

/// The profits of the balance operations in the given datasets, in stacking
/// order. A total balance is their sum; with no such row it is zero.
pub fn balance_terms(datasets: &Vec<DealColumns>) -> (r: Vec<Amount>)
    ensures
        r@ == selected_profits(dataset_views(datasets@), EntryFilter::Balance),
{
    let ghost dv = dataset_views(datasets@);
    let filter = EntryFilter::Balance;
    let mut terms: Vec<Amount> = Vec::new();
    let mut k: usize = 0;
    while k < datasets.len()
        invariant
            k <= datasets.len(),
            dv == dataset_views(datasets@),
            filter == EntryFilter::Balance,
            terms@ == select(all_rows(dv.subrange(0, k as int)), filter).map_values(
                |d: DealView| d.profit,
            ),
        decreases datasets.len() - k,
    {
        let ds = &datasets[k];
        let ghost base = all_rows(dv.subrange(0, k as int));
        assert(dv.subrange(0, k + 1).drop_last() =~= dv.subrange(0, k as int));
        assert(dv.subrange(0, k + 1).last() == ds@);
        let mut i: usize = 0;
        assert(base + rows_of(ds@).subrange(0, 0) =~= base);
        while i < ds.height
            invariant
                i <= ds.height,
                ds == &datasets[k as int],
                filter == EntryFilter::Balance,
                terms@ == select(base + rows_of(ds@).subrange(0, i as int), filter).map_values(
                    |d: DealView| d.profit,
                ),
            decreases ds.height - i,
        {
            let d = ds.row(i);
            let ghost before = base + rows_of(ds@).subrange(0, i as int);
            let ghost after = base + rows_of(ds@).subrange(0, i + 1);
            assert(after.drop_last() =~= before);
            assert(after.last() == d@);
            if filter.keeps(&d) {
                terms.push(d.profit);
                assert(select(after, filter) == select(before, filter).push(d@));
                assert(terms@ =~= select(after, filter).map_values(|d: DealView| d.profit));
            }
            i = i + 1;
        }
        assert(rows_of(ds@).subrange(0, ds.height as int) =~= rows_of(ds@));
        k = k + 1;
    }
    assert(dv.subrange(0, datasets.len() as int) =~= dv);
    terms
}


/// A stored dataset's file name: `name` with the dataset extension
/// appended unless it already ends with it.
pub open spec fn with_extension(name: Seq<char>) -> Seq<char> {
    if has_suffix(name, ".parquet"@) {
        name
    } else {
        name + ".parquet"@
    }
}

/// A file name of a stored dataset: it has the dataset extension after a
/// non-empty stem.
pub open spec fn is_dataset_file(name: Seq<char>) -> bool {
    has_suffix(name, ".parquet"@) && name.len() > ".parquet"@.len()
}

/// The file name under which the dataset `name` is stored.
pub fn source_file_name(name: &str) -> (r: String)
    ensures
        r@ == with_extension(name@),
{
    let mut r = String::from_str(name);
    if !ends_with(name, ".parquet") {
        r.append(".parquet");
    }
    r
}

/// Tests whether a file name is that of a stored dataset.
pub fn is_dataset_file_name(name: &str) -> (r: bool)
    ensures
        r == is_dataset_file(name@),
{
    ends_with(name, ".parquet") && name.unicode_len() > ".parquet".unicode_len()
}

/// Paths of the dataset files among `files`, in listing order.
pub open spec fn dataset_paths(dir: Seq<char>, files: Seq<Seq<char>>) -> Seq<Seq<char>>
    decreases files.len(),
{
    if files.len() == 0 {
        Seq::empty()
    } else {
        let p = dataset_paths(dir, files.drop_last());
        if is_dataset_file(files.last()) {
            p.push(joined(dir, files.last()))
        } else {
            p
        }
    }
}

/// Which files a query reads: the paths, or the message of the error.
pub open spec fn source_selection(
    account: Option<Seq<char>>,
    dir: Seq<char>,
    files: Seq<Seq<char>>,
) -> Result<Seq<Seq<char>>, Seq<char>> {
    match account {
        Some(a) => {
            let path = joined(dir, with_extension(a));
            if files.contains(with_extension(a)) {
                Ok(seq![path])
            } else {
                Err("Deal file not found: "@ + path)
            }
        },
        None => Ok(dataset_paths(dir, files)),
    }
}

pub open spec fn selection_view(r: Result<Vec<String>, AppError>) -> Result<Seq<Seq<char>>, Seq<char>> {
    match r {
        Ok(v) => Ok(string_views(v@)),
        Err(e) => Err(e.message@),
    }
}

/// The files a query reads. With a source identifier, the one file it names
/// in `deals_dir` (the dataset extension appended if absent), which must be
/// among `dir_files`; otherwise every dataset file of `dir_files`, in listing
/// order, which is empty for an empty directory. `dir_files` lists the names
/// of the regular files in `deals_dir`.
pub fn select_source_files(account: &Option<String>, deals_dir: &str, dir_files: &Vec<String>) -> (r:
    Result<Vec<String>, AppError>)
    ensures
        selection_view(r) == source_selection(
            text_view(*account),
            deals_dir@,
            string_views(dir_files@),
        ),
{
    let ghost names = string_views(dir_files@);
    match account {
        Some(a) => {
            let name = source_file_name(a.as_str());
            assert(name@ == with_extension(a@));
            let path = join_path(deals_dir, name.as_str());
            assert(path@ == joined(deals_dir@, with_extension(a@)));
            let mut i: usize = 0;
            while i < dir_files.len()
                invariant
                    i <= dir_files.len(),
                    names == string_views(dir_files@),
                    name@ == with_extension(a@),
                    text_view(*account) == Some(a@),
                    path@ == joined(deals_dir@, with_extension(a@)),
                    forall|j: int| 0 <= j < i ==> names[j] != name@,
                decreases dir_files.len() - i,
            {
                if same_text(dir_files[i].as_str(), name.as_str()) {
                    let mut v: Vec<String> = Vec::new();
                    let ghost pv = path@;
                    v.push(path);
                    assert(v@.len() == 1 && v@[0]@ == pv);
                    assert(names[i as int] == name@);
                    assert(names.contains(name@));


                    assert(string_views(v@) =~= seq![joined(deals_dir@, with_extension(a@))]);
                    return Ok(v);
                }
                i = i + 1;
            }
            assert(!names.contains(name@));
            let mut msg = String::from_str("Deal file not found: ");
            msg.append(path.as_str());
            Err(AppError::from_message(msg))
        },
        None => {
            let mut v: Vec<String> = Vec::new();
            let mut i: usize = 0;
            while i < dir_files.len()
                invariant
                    i <= dir_files.len(),
                    names == string_views(dir_files@),
                    string_views(v@) == dataset_paths(deals_dir@, names.subrange(0, i as int)),
                decreases dir_files.len() - i,
            {
                let ghost before = string_views(v@);
                assert(names.subrange(0, i + 1).drop_last() =~= names.subrange(0, i as int));
                assert(names.subrange(0, i + 1).last() == dir_files@[i as int]@);
                if is_dataset_file_name(dir_files[i].as_str()) {
                    let p = join_path(deals_dir, dir_files[i].as_str());
                    v.push(p);
                    assert(string_views(v@) =~= before.push(p@));
                }
                i = i + 1;
            }
            assert(names.subrange(0, dir_files.len() as int) =~= names);
            Ok(v)
        },
    }
}

/// Rows of one symbol as the grouping query holds them.
pub struct GroupView {
    pub symbol: Seq<char>,
    pub profits: Seq<Amount>,
    pub volumes: Seq<Amount>,
}

/// The rows of one symbol: their profits and volumes, in row order. Its
/// trade count is the number of these rows.
#[derive(Debug, Clone)]
pub struct SymbolGroup {
    pub symbol: String,
    pub profits: Vec<Amount>,
    pub volumes: Vec<Amount>,
}

impl View for SymbolGroup {
    type V = GroupView;

    open spec fn view(&self) -> GroupView {
        GroupView { symbol: self.symbol@, profits: self.profits@, volumes: self.volumes@ }
    }
}

impl SymbolGroup {
    pub fn trade_count(&self) -> (r: u64)
        ensures
            r == self.profits@.len(),
    {
        self.profits.len() as u64
    }
}

pub open spec fn group_views(s: Seq<SymbolGroup>) -> Seq<GroupView> {
    s.map_values(|g: SymbolGroup| g@)
}

/// Position of the first group of symbol `sym`.
pub open spec fn find_group(gs: Seq<GroupView>, sym: Seq<char>) -> Option<int>
    decreases gs.len(),
{
    if gs.len() == 0 {
        None
    } else {
        match find_group(gs.drop_last(), sym) {
            Some(i) => Some(i),
            None => if gs.last().symbol == sym {
                Some(gs.len() - 1)
            } else {
                None
            },
        }
    }
}

/// Groups after one more row: appended to its symbol's group, or opening a
/// new group at the end.
pub open spec fn add_to_groups(gs: Seq<GroupView>, d: DealView) -> Seq<GroupView> {
    match find_group(gs, d.symbol) {
        Some(i) => gs.update(
            i,
            GroupView {
                symbol: gs[i].symbol,
                profits: gs[i].profits.push(d.profit),
                volumes: gs[i].volumes.push(d.volume),
            },
        ),
        None => gs.push(GroupView { symbol: d.symbol, profits: seq![d.profit], volumes: seq![d.volume] }),
    }
}

/// Rows grouped by symbol, groups in order of first appearance.
pub open spec fn group_rows(rows: Seq<DealView>) -> Seq<GroupView>
    decreases rows.len(),
{
    if rows.len() == 0 {
        Seq::empty()
    } else {
        add_to_groups(group_rows(rows.drop_last()), rows.last())
    }
}

proof fn lemma_find_group_prefix(gs: Seq<GroupView>, sym: Seq<char>, n: int)
    requires
        0 <= n <= gs.len(),
        find_group(gs.subrange(0, n), sym) is Some,
    ensures
        find_group(gs, sym) == find_group(gs.subrange(0, n), sym),
    decreases gs.len() - n,
{
    if n < gs.len() {
        let d = gs.drop_last();
        assert(d.subrange(0, n) =~= gs.subrange(0, n));
        lemma_find_group_prefix(d, sym, n);
    } else {
        assert(gs.subrange(0, n) =~= gs);
    }
}

fn find_group_index(groups: &Vec<SymbolGroup>, sym: &str) -> (r: Option<usize>)
    ensures
        match find_group(group_views(groups@), sym@) {
            Some(i) => r == Some(i as usize) && 0 <= i < groups.len(),
            None => r is None,
        },
{
    let ghost gv = group_views(groups@);
    let mut j: usize = 0;
    assert(gv.subrange(0, 0) =~= Seq::<GroupView>::empty());
    while j < groups.len()
        invariant
            j <= groups.len(),
            gv == group_views(groups@),
            find_group(gv.subrange(0, j as int), sym@) is None,
        decreases groups.len() - j,
    {
        let ghost p = gv.subrange(0, j + 1);
        assert(p.drop_last() =~= gv.subrange(0, j as int));
        assert(p.last() == groups@[j as int]@);
        if same_text(groups[j].symbol.as_str(), sym) {
            proof { lemma_find_group_prefix(gv, sym@, j + 1); }
            return Some(j);
        }
        j = j + 1;
    }
    assert(gv.subrange(0, groups.len() as int) =~= gv);
    None
}

fn add_row_to_groups(groups: &mut Vec<SymbolGroup>, d: Deal)
    ensures
        group_views(final(groups)@) == add_to_groups(group_views(old(groups)@), d@),
{
    let ghost before = group_views(groups@);
    let sym = d.symbol.as_str();
    let found = find_group_index(groups, sym);
    assert(before == group_views(groups@));
    assert(sym@ == d@.symbol);
    match found {
        Some(i) => {
            let ghost g0 = groups@[i as int];
            assert(find_group(before, sym@) is Some);
            assert(find_group(before, d@.symbol) == Some(i as int));
            groups[i].profits.push(d.profit);
            groups[i].volumes.push(d.volume);
            assert(groups@[i as int].symbol == g0.symbol);
            assert(groups@[i as int].profits@ == g0.profits@.push(d.profit));
            assert(groups@[i as int].volumes@ == g0.volumes@.push(d.volume));
            assert(group_views(groups@) =~= add_to_groups(before, d@));
        },
        None => {
            let mut profits: Vec<Amount> = Vec::new();
            profits.push(d.profit);
            let mut volumes: Vec<Amount> = Vec::new();
            volumes.push(d.volume);
            let g = SymbolGroup { symbol: d.symbol, profits, volumes };
            groups.push(g);
            assert(profits@ =~= seq![d@.profit]);
            assert(group_views(groups@) =~= add_to_groups(before, d@));
        },
    }
}

/// Groups the rows of the given datasets by symbol, groups in order of the
/// first row of each symbol, each holding the profits and volumes of its
/// rows in stacking order.
pub fn group_by_symbol(datasets: &Vec<DealColumns>) -> (r: Vec<SymbolGroup>)
    ensures
        group_views(r@) == group_rows(all_rows(dataset_views(datasets@))),
{
    let ghost dv = dataset_views(datasets@);
    let mut groups: Vec<SymbolGroup> = Vec::new();
    let mut k: usize = 0;
    assert(group_views(groups@) =~= Seq::<GroupView>::empty());
    while k < datasets.len()
        invariant
            k <= datasets.len(),
            dv == dataset_views(datasets@),
            group_views(groups@) == group_rows(all_rows(dv.subrange(0, k as int))),
        decreases datasets.len() - k,
    {
        let ds = &datasets[k];
        let ghost base = all_rows(dv.subrange(0, k as int));
        assert(dv.subrange(0, k + 1).drop_last() =~= dv.subrange(0, k as int));
        assert(dv.subrange(0, k + 1).last() == ds@);
        let mut i: usize = 0;
        assert(base + rows_of(ds@).subrange(0, 0) =~= base);
        while i < ds.height
            invariant
                i <= ds.height,
                ds == &datasets[k as int],
                group_views(groups@) == group_rows(base + rows_of(ds@).subrange(0, i as int)),
            decreases ds.height - i,
        {
            let d = ds.row(i);
            let ghost before = base + rows_of(ds@).subrange(0, i as int);
            let ghost after = base + rows_of(ds@).subrange(0, i + 1);
            assert(after.drop_last() =~= before);
            assert(after.last() == d@);
            add_row_to_groups(&mut groups, d);
            i = i + 1;
        }
        assert(rows_of(ds@).subrange(0, ds.height as int) =~= rows_of(ds@));
        k = k + 1;
    }
    assert(dv.subrange(0, datasets.len() as int) =~= dv);
    groups
}

/// The rows of symbol `sym`, in order.
pub open spec fn rows_of_symbol(rows: Seq<DealView>, sym: Seq<char>) -> Seq<DealView>
    decreases rows.len(),
{
    if rows.len() == 0 {
        Seq::empty()
    } else {
        let p = rows_of_symbol(rows.drop_last(), sym);
        if rows.last().symbol == sym {
            p.push(rows.last())
        } else {
            p
        }
    }
}

proof fn lemma_find_group(gs: Seq<GroupView>, sym: Seq<char>)
    ensures
        match find_group(gs, sym) {
            Some(k) => 0 <= k < gs.len() && gs[k].symbol == sym,
            None => forall|i: int| 0 <= i < gs.len() ==> gs[i].symbol != sym,
        },
    decreases gs.len(),
{
    if gs.len() > 0 {
        lemma_find_group(gs.drop_last(), sym);
        assert forall|i: int| 0 <= i < gs.len() - 1 implies gs.drop_last()[i] == gs[i] by {}
    }
}

/// Grouping by symbol gives one group per symbol that occurs, each symbol
/// once, and each group holds exactly the profits and volumes of the rows of
/// its symbol, in row order; its trade count is the number of those rows.
pub proof fn lemma_groups_exact(rows: Seq<DealView>)
    ensures
        forall|i: int, j: int|
            0 <= i < j < group_rows(rows).len() ==> group_rows(rows)[i].symbol != group_rows(
                rows,
            )[j].symbol,
        forall|i: int|
            0 <= i < group_rows(rows).len() ==> {
                let g = #[trigger] group_rows(rows)[i];
                &&& g.profits == rows_of_symbol(rows, g.symbol).map_values(|d: DealView| d.profit)
                &&& g.volumes == rows_of_symbol(rows, g.symbol).map_values(|d: DealView| d.volume)
            },
        forall|sym: Seq<char>|
            (forall|i: int| 0 <= i < group_rows(rows).len() ==> group_rows(rows)[i].symbol != sym)
                ==> #[trigger] rows_of_symbol(rows, sym).len() == 0,
    decreases rows.len(),
{
    if rows.len() > 0 {
        let d = rows.drop_last();
        let x = rows.last();
        let gs0 = group_rows(d);
        lemma_groups_exact(d);
        lemma_find_group(gs0, x.symbol);
        let gs = group_rows(rows);
        assert(gs == add_to_groups(gs0, x));
        assert forall|sym: Seq<char>| sym != x.symbol implies rows_of_symbol(rows, sym)
            == rows_of_symbol(d, sym) by {}
        assert(rows_of_symbol(rows, x.symbol) == rows_of_symbol(d, x.symbol).push(x));
        match find_group(gs0, x.symbol) {
            Some(k) => {
                assert forall|i: int| 0 <= i < gs.len() implies {
                    let g = #[trigger] gs[i];
                    &&& g.profits == rows_of_symbol(rows, g.symbol).map_values(
                        |v: DealView| v.profit,
                    )
                    &&& g.volumes == rows_of_symbol(rows, g.symbol).map_values(
                        |v: DealView| v.volume,
                    )
                } by {
                    if i == k {
                        let g0 = gs0[k];
                        assert(g0.profits == rows_of_symbol(d, g0.symbol).map_values(
                            |v: DealView| v.profit,
                        ));
                        assert(rows_of_symbol(d, x.symbol).push(x).map_values(|v: DealView| v.profit)
                            =~= rows_of_symbol(d, x.symbol).map_values(|v: DealView| v.profit).push(
                            x.profit,
                        ));
                        assert(rows_of_symbol(d, x.symbol).push(x).map_values(|v: DealView| v.volume)
                            =~= rows_of_symbol(d, x.symbol).map_values(|v: DealView| v.volume).push(
                            x.volume,
                        ));
                    } else {
                        assert(gs[i] == gs0[i]);
                        assert(gs0[i].symbol != gs0[k].symbol);
                    }
                }
                assert forall|sym: Seq<char>|
                    (forall|i: int| 0 <= i < gs.len() ==> gs[i].symbol != sym) implies #[trigger] rows_of_symbol(
                    rows,
                    sym,
                ).len() == 0 by {
                    assert(gs[k].symbol == x.symbol);
                    assert forall|i: int| 0 <= i < gs0.len() implies gs0[i].symbol != sym by {
                        assert(gs[i].symbol == gs0[i].symbol);
                    }
                }
            },
            None => {
                assert(rows_of_symbol(d, x.symbol).len() == 0);
                assert forall|i: int| 0 <= i < gs.len() implies {
                    let g = #[trigger] gs[i];
                    &&& g.profits == rows_of_symbol(rows, g.symbol).map_values(
                        |v: DealView| v.profit,
                    )
                    &&& g.volumes == rows_of_symbol(rows, g.symbol).map_values(
                        |v: DealView| v.volume,
                    )
                } by {
                    if i == gs0.len() {
                        assert(rows_of_symbol(rows, x.symbol) =~= seq![x]);
                        assert(seq![x].map_values(|v: DealView| v.profit) =~= seq![x.profit]);
                        assert(seq![x].map_values(|v: DealView| v.volume) =~= seq![x.volume]);
                    } else {
                        assert(gs[i] == gs0[i]);
                    }
                }
                assert forall|sym: Seq<char>|
                    (forall|i: int| 0 <= i < gs.len() ==> gs[i].symbol != sym) implies #[trigger] rows_of_symbol(
                    rows,
                    sym,
                ).len() == 0 by {
                    assert(gs[gs0.len() as int].symbol == x.symbol);
                    assert forall|i: int| 0 <= i < gs0.len() implies gs0[i].symbol != sym by {
                        assert(gs[i] == gs0[i]);
                    }
                }
            },
        }
    }
}

/// Rows in ascending time order.
pub open spec fn time_ordered(s: Seq<DealView>) -> bool {
    forall|i: int, j: int| 0 <= i < j < s.len() ==> s[i].time <= s[j].time
}

proof fn lemma_empty_multiset<A>(s: Seq<A>)
    requires
        s.len() == 0,
    ensures
        s.to_multiset() == Multiset::<A>::empty(),
{
    broadcast use vstd::seq_lib::group_to_multiset_ensures;
    broadcast use vstd::multiset::group_multiset_axioms;

    assert forall|a: A| s.to_multiset().count(a) == 0 by {
        assert(!s.contains(a));
    }
    assert(s.to_multiset() =~= Multiset::<A>::empty());
}

proof fn lemma_insert_members(t: Seq<DealView>, x: DealView)
    ensures
        insert_by_time(t, x).len() == t.len() + 1,
        forall|i: int|
            0 <= i < insert_by_time(t, x).len() ==> #[trigger] insert_by_time(t, x)[i] == x
                || t.contains(insert_by_time(t, x)[i]),
    decreases t.len(),
{
    if t.len() > 0 && t.last().time > x.time {
        let d = t.drop_last();
        lemma_insert_members(d, x);
        let r = insert_by_time(d, x);
        assert forall|i: int| 0 <= i < r.len() + 1 implies #[trigger] r.push(t.last())[i] == x
            || t.contains(r.push(t.last())[i]) by {
            if i < r.len() {
                if r[i] != x {
                    let j = choose|j: int| 0 <= j < d.len() && d[j] == r[i];
                    assert(t[j] == d[j]);
                }
            } else {
                assert(t[t.len() - 1] == t.last());
            }
        }
    } else if t.len() > 0 {
        assert forall|i: int| 0 <= i < t.len() + 1 implies #[trigger] t.push(x)[i] == x
            || t.contains(t.push(x)[i]) by {
            if i < t.len() {
                assert(t.push(x)[i] == t[i]);
            }
        }
    }
}

proof fn lemma_insert_ordered(t: Seq<DealView>, x: DealView)
    requires
        time_ordered(t),
    ensures
        time_ordered(insert_by_time(t, x)),
    decreases t.len(),
{
    if t.len() > 0 && t.last().time > x.time {
        let d = t.drop_last();
        assert(time_ordered(d));
        lemma_insert_ordered(d, x);
        lemma_insert_members(d, x);
        let r = insert_by_time(d, x);
        assert forall|i: int| 0 <= i < r.len() implies r[i].time <= t.last().time by {
            assert(r[i] == x || d.contains(r[i]));
            if r[i] != x {
                let j = choose|j: int| 0 <= j < d.len() && d[j] == r[i];
                assert(t[j] == d[j]);
                assert(t[t.len() - 1] == t.last());
            }
        }
    } else if t.len() > 0 {
        assert(t[t.len() - 1] == t.last());
    }
}

proof fn lemma_sort_ordered(s: Seq<DealView>)
    ensures
        time_ordered(sort_by_time(s)),
    decreases s.len(),
{
    if s.len() > 0 {
        lemma_sort_ordered(s.drop_last());
        lemma_insert_ordered(sort_by_time(s.drop_last()), s.last());
    }
}

proof fn lemma_insert_map_multiset<A>(t: Seq<DealView>, x: DealView, f: spec_fn(DealView) -> A)
    ensures
        insert_by_time(t, x).map_values(f).to_multiset() == t.map_values(f).to_multiset().insert(
            f(x),
        ),
    decreases t.len(),
{
    broadcast use vstd::seq_lib::group_to_multiset_ensures;
    broadcast use vstd::multiset::group_multiset_axioms;

    if t.len() == 0 {
        assert(insert_by_time(t, x).map_values(f) =~= t.map_values(f).push(f(x)));
    } else if t.last().time <= x.time {
        assert(t.push(x).map_values(f) =~= t.map_values(f).push(f(x)));
    } else {
        let d = t.drop_last();
        let r = insert_by_time(d, x);
        lemma_insert_map_multiset(d, x, f);
        assert(r.push(t.last()).map_values(f) =~= r.map_values(f).push(f(t.last())));
        assert(t.map_values(f) =~= d.map_values(f).push(f(t.last())));
        assert(d.map_values(f).to_multiset().insert(f(x)).insert(f(t.last())) =~= d.map_values(
            f,
        ).to_multiset().insert(f(t.last())).insert(f(x)));
    }
}

proof fn lemma_sort_map_multiset<A>(s: Seq<DealView>, f: spec_fn(DealView) -> A)
    ensures
        sort_by_time(s).map_values(f).to_multiset() == s.map_values(f).to_multiset(),
    decreases s.len(),
{
    broadcast use vstd::seq_lib::group_to_multiset_ensures;

    if s.len() == 0 {
        assert(sort_by_time(s).map_values(f) =~= s.map_values(f));
    } else {
        let d = s.drop_last();
        lemma_sort_map_multiset(d, f);
        lemma_insert_map_multiset(sort_by_time(d), s.last(), f);
        assert(s.map_values(f) =~= d.map_values(f).push(f(s.last())));
    }
}

proof fn lemma_sort_multiset(s: Seq<DealView>)
    ensures
        sort_by_time(s).to_multiset() == s.to_multiset(),
        sort_by_time(s).len() == s.len(),
{
    broadcast use vstd::seq_lib::group_to_multiset_ensures;

    let id = |d: DealView| d;
    lemma_sort_map_multiset(s, id);
    assert(sort_by_time(s).map_values(id) =~= sort_by_time(s));
    assert(s.map_values(id) =~= s);
    assert(sort_by_time(s).to_multiset().len() == sort_by_time(s).len());
    assert(s.to_multiset().len() == s.len());
}

proof fn lemma_select_count(s: Seq<DealView>, f: EntryFilter, x: DealView)
    ensures
        select(s, f).to_multiset().count(x) == if keeps(f, x) {
            s.to_multiset().count(x)
        } else {
            0
        },
    decreases s.len(),
{
    broadcast use vstd::seq_lib::group_to_multiset_ensures;
    broadcast use vstd::multiset::group_multiset_axioms;

    if s.len() == 0 {
        lemma_empty_multiset(s);
        lemma_empty_multiset(select(s, f));
    } else {
        lemma_select_count(s.drop_last(), f, x);
        assert(s =~= s.drop_last().push(s.last()));
    }
}

/// An entry query returns its rows in ascending time order, and holds each
/// row that its filter keeps as many times as the data does, and no other
/// row.
pub proof fn lemma_entries_exact(ds: Seq<DealColumnsView>, f: EntryFilter, x: DealView)
    ensures
        time_ordered(entries(ds, f)),
        entries(ds, f).to_multiset().count(x) == if keeps(f, x) {
            all_rows(ds).to_multiset().count(x)
        } else {
            0
        },
{
    lemma_sort_ordered(select(all_rows(ds), f));
    lemma_sort_multiset(select(all_rows(ds), f));
    lemma_select_count(all_rows(ds), f, x);
}

/// On data where no trade entry is of balance type and every balance-type
/// row is an entry of kind 0 or 1, the trade entries and the balance entries
/// together are exactly the trade entries with balance, and no row is in
/// both.
pub proof fn lemma_trade_balance_partition(ds: Seq<DealColumnsView>)
    requires
        forall|i: int|
            0 <= i < all_rows(ds).len() ==> (#[trigger] all_rows(ds)[i].entry == 1
                ==> all_rows(ds)[i].deal_type != 2),
        forall|i: int|
            0 <= i < all_rows(ds).len() ==> (#[trigger] all_rows(ds)[i].deal_type == 2
                ==> all_rows(ds)[i].entry == 0 || all_rows(ds)[i].entry == 1),
    ensures
        entries(ds, EntryFilter::Trade).to_multiset().add(
            entries(ds, EntryFilter::Balance).to_multiset(),
        ) == entries(ds, EntryFilter::TradeWithBalance).to_multiset(),
        forall|x: DealView|
            entries(ds, EntryFilter::Trade).to_multiset().count(x) == 0 || entries(
                ds,
                EntryFilter::Balance,
            ).to_multiset().count(x) == 0,
{
    broadcast use vstd::seq_lib::group_to_multiset_ensures;
    broadcast use vstd::multiset::group_multiset_axioms;

    let rows = all_rows(ds);
    let t = entries(ds, EntryFilter::Trade).to_multiset();
    let b = entries(ds, EntryFilter::Balance).to_multiset();
    let w = entries(ds, EntryFilter::TradeWithBalance).to_multiset();
    assert forall|x: DealView| t.add(b).count(x) == w.count(x) && (t.count(x) == 0 || b.count(x)
        == 0) by {
        lemma_entries_exact(ds, EntryFilter::Trade, x);
        lemma_entries_exact(ds, EntryFilter::Balance, x);
        lemma_entries_exact(ds, EntryFilter::TradeWithBalance, x);
        if rows.to_multiset().count(x) > 0 {
            assert(rows.contains(x));
            let i = choose|i: int| 0 <= i < rows.len() && rows[i] == x;
            assert(rows[i].entry == 1 ==> rows[i].deal_type != 2);
            assert(rows[i].deal_type == 2 ==> rows[i].entry == 0 || rows[i].entry == 1);
        }
    }
    assert(t.add(b) =~= w);
}

/// The terms of a total balance are the profits of exactly the rows that the
/// balance entry query returns, as many; with no such row there is no term
/// and the total is zero.
pub proof fn lemma_balance_terms_match_entries(ds: Seq<DealColumnsView>)
    ensures
        selected_profits(ds, EntryFilter::Balance).to_multiset() == entries(
            ds,
            EntryFilter::Balance,
        ).map_values(|d: DealView| d.profit).to_multiset(),
        selected_profits(ds, EntryFilter::Balance).len() == entries(ds, EntryFilter::Balance).len(),
{
    let s = select(all_rows(ds), EntryFilter::Balance);
    lemma_sort_map_multiset(s, |d: DealView| d.profit);
    lemma_sort_multiset(s);
}

} // verus!
