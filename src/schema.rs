//! The canonical deal schema and the strict validator that a dataset must
//! pass before it is accepted.
use vstd::prelude::*;
use crate::error::AppError;
use crate::text::{decimal, decimal_text, join_lines, joined_lines, same_text, string_views};

verus! {

/// Storage type of a column.
#[derive(Clone, Copy, Debug, PartialEq, Eq, Structural)]
pub enum ColumnType {
    Int64,
    Float64,
    Text,
    Other,
}

/// The name under which a type is reported.
pub open spec fn dtype_label(t: ColumnType) -> Seq<char> {
    match t {
        ColumnType::Int64 => "Int64"@,
        ColumnType::Float64 => "Float64"@,
        ColumnType::Text => "String"@,
        ColumnType::Other => "Other"@,
    }
}

pub fn dtype_label_text(t: ColumnType) -> (r: &'static str)
    ensures
        r@ == dtype_label(t),
{
    match t {
        ColumnType::Int64 => "Int64",
        ColumnType::Float64 => "Float64",
        ColumnType::Text => "String",
        ColumnType::Other => "Other",
    }
}

/// The canonical deal schema: column names with their types, in order.
pub open spec fn canonical_schema() -> Seq<(Seq<char>, ColumnType)> {
    seq![
        ("ticket"@, ColumnType::Int64),
        ("order"@, ColumnType::Int64),
        ("time"@, ColumnType::Int64),
        ("time_msc"@, ColumnType::Int64),
        ("type"@, ColumnType::Int64),
        ("entry"@, ColumnType::Int64),
        ("magic"@, ColumnType::Int64),
        ("position_id"@, ColumnType::Int64),
        ("reason"@, ColumnType::Int64),
        ("volume"@, ColumnType::Float64),
        ("price"@, ColumnType::Float64),
        ("commission"@, ColumnType::Float64),
        ("swap"@, ColumnType::Float64),
        ("profit"@, ColumnType::Float64),
        ("fee"@, ColumnType::Float64),
        ("symbol"@, ColumnType::Text),
        ("comment"@, ColumnType::Text),
        ("external_id"@, ColumnType::Text),
    ]
}

pub open spec fn schema_view(s: Seq<(&'static str, ColumnType)>) -> Seq<(Seq<char>, ColumnType)> {
    s.map_values(|p: (&'static str, ColumnType)| (p.0@, p.1))
}

/// The canonical deal schema.
pub fn deals_schema() -> (r: Vec<(&'static str, ColumnType)>)
    ensures
        schema_view(r@) == canonical_schema(),
{
    let r = vec![
        ("ticket", ColumnType::Int64),
        ("order", ColumnType::Int64),
        ("time", ColumnType::Int64),
        ("time_msc", ColumnType::Int64),
        ("type", ColumnType::Int64),
        ("entry", ColumnType::Int64),
        ("magic", ColumnType::Int64),
        ("position_id", ColumnType::Int64),
        ("reason", ColumnType::Int64),
        ("volume", ColumnType::Float64),
        ("price", ColumnType::Float64),
        ("commission", ColumnType::Float64),
        ("swap", ColumnType::Float64),
        ("profit", ColumnType::Float64),
        ("fee", ColumnType::Float64),
        ("symbol", ColumnType::Text),
        ("comment", ColumnType::Text),
        ("external_id", ColumnType::Text),
    ];
    assert(schema_view(r@) =~= canonical_schema());
    r
}

/// The type of the first entry of `s` named `name`.
pub open spec fn lookup_type(s: Seq<(Seq<char>, ColumnType)>, name: Seq<char>) -> Option<ColumnType>
    decreases s.len(),
{
    if s.len() == 0 {
        None
    } else if s[0].0 == name {
        Some(s[0].1)
    } else {
        lookup_type(s.drop_first(), name)
    }
}

/// Expected type of a column of the canonical schema; `None` for a name
/// outside it.
pub fn get_column_type(column_name: &str) -> (r: Option<ColumnType>)
    ensures
        r == lookup_type(canonical_schema(), column_name@),
{
    let schema = deals_schema();
    let ghost canon = canonical_schema();
    assert(canon.subrange(0, canon.len() as int) =~= canon);
    let mut i: usize = 0;
    while i < schema.len()
        invariant
            i <= schema.len(),
            schema_view(schema@) == canon,
            canon == canonical_schema(),
            lookup_type(canon, column_name@) == lookup_type(
                canon.subrange(i as int, canon.len() as int),
                column_name@,
            ),
        decreases schema.len() - i,
    {
        let ghost rest = canon.subrange(i as int, canon.len() as int);
        assert(rest.drop_first() =~= canon.subrange(i + 1, canon.len() as int));
        assert(schema_view(schema@)[i as int] == (schema@[i as int].0@, schema@[i as int].1));
        if same_text(schema[i].0, column_name) {
            return Some(schema[i].1);
        }
        i = i + 1;
    }
    None
}

/// What a dataset declares about one of its columns.
#[derive(Debug, Clone)]
pub struct ColumnInfo {
    pub name: String,
    pub dtype: ColumnType,
    /// The type as the storage layer names it, used in reports.
    pub dtype_name: String,
    pub null_count: u64,
}

/// `j` is the first column of `cols` named `name`.
pub open spec fn is_first_named(cols: Seq<ColumnInfo>, name: Seq<char>, j: int) -> bool {
    &&& 0 <= j < cols.len()
    &&& cols[j].name@ == name
    &&& forall|k: int| 0 <= k < j ==> cols[k].name@ != name
}

/// Position of the first column named `name`.
pub open spec fn column_named(cols: Seq<ColumnInfo>, name: Seq<char>) -> Option<int> {
    if exists|j: int| is_first_named(cols, name, j) {
        Some(choose|j: int| is_first_named(cols, name, j))
    } else {
        None
    }
}

pub proof fn lemma_first_named_unique(cols: Seq<ColumnInfo>, name: Seq<char>, j: int)
    requires
        is_first_named(cols, name, j),
    ensures
        column_named(cols, name) == Some(j),
{
    let c = choose|x: int| is_first_named(cols, name, x);
    assert(is_first_named(cols, name, c));
    if c < j {
        assert(cols[c].name@ != name);
    }
    if j < c {
        assert(cols[j].name@ != name);
    }
}

pub proof fn lemma_some_named_has_first(cols: Seq<ColumnInfo>, name: Seq<char>, j: int)
    requires
        0 <= j < cols.len(),
        cols[j].name@ == name,
    ensures
        exists|f: int| is_first_named(cols, name, f),
    decreases j,
{
    if exists|k: int| 0 <= k < j && cols[k].name@ == name {
        let k = choose|k: int| 0 <= k < j && cols[k].name@ == name;
        lemma_some_named_has_first(cols, name, k);
    } else {
        assert(is_first_named(cols, name, j));
    }
}

fn find_column(cols: &Vec<ColumnInfo>, name: &str) -> (r: Option<usize>)
    ensures
        r == match column_named(cols@, name@) {
            Some(j) => Some(j as usize),
            None => None::<usize>,
        },
        r matches Some(j) ==> is_first_named(cols@, name@, j as int),
{
    let mut j: usize = 0;
    while j < cols.len()
        invariant
            j <= cols.len(),
            forall|k: int| 0 <= k < j ==> cols@[k].name@ != name@,
        decreases cols.len() - j,
    {
        if same_text(cols[j].name.as_str(), name) {
            proof { lemma_first_named_unique(cols@, name@, j as int); }
            return Some(j);
        }
        j = j + 1;
    }
    assert(!exists|f: int| is_first_named(cols@, name@, f));
    None
}

/// A schema discrepancy, as the library reasons about it.
pub enum IssueView {
    Missing(Seq<char>),
    Unexpected(Seq<char>),
    WrongType(Seq<char>, ColumnType, Seq<char>),
    Nulls(Seq<char>, u64),
}

/// One way in which a dataset departs from the canonical schema.
#[derive(Debug, Clone)]
pub enum SchemaIssue {
    MissingColumn(String),
    UnexpectedColumn(String),
    WrongType { column: String, expected: ColumnType, found: String },
    NullValues { column: String, count: u64 },
}

impl View for SchemaIssue {
    type V = IssueView;

    open spec fn view(&self) -> IssueView {
        match self {
            SchemaIssue::MissingColumn(n) => IssueView::Missing(n@),
            SchemaIssue::UnexpectedColumn(n) => IssueView::Unexpected(n@),
            SchemaIssue::WrongType { column, expected, found } => IssueView::WrongType(
                column@,
                *expected,
                found@,
            ),
            SchemaIssue::NullValues { column, count } => IssueView::Nulls(column@, *count),
        }
    }
}

pub open spec fn issue_views(s: Seq<SchemaIssue>) -> Seq<IssueView> {
    s.map_values(|i: SchemaIssue| i@)
}

/// Discrepancies for the canonical column `name` of type `expected`: it is
/// missing, or it has another type, or it holds nulls (both may hold).
pub open spec fn column_issues(cols: Seq<ColumnInfo>, name: Seq<char>, expected: ColumnType) -> Seq<
    IssueView,
> {
    match column_named(cols, name) {
        None => seq![IssueView::Missing(name)],
        Some(j) => {
            let c = cols[j];
            let t = if c.dtype != expected {
                seq![IssueView::WrongType(name, expected, c.dtype_name@)]
            } else {
                Seq::empty()
            };
            let n = if c.null_count > 0 {
                seq![IssueView::Nulls(name, c.null_count)]
            } else {
                Seq::empty()
            };
            t + n
        },
    }
}

/// Discrepancies for each column of `canon`, in its order.
pub open spec fn required_issues(cols: Seq<ColumnInfo>, canon: Seq<(Seq<char>, ColumnType)>) -> Seq<
    IssueView,
>
    decreases canon.len(),
{
    if canon.len() == 0 {
        Seq::empty()
    } else {
        required_issues(cols, canon.drop_last()) + column_issues(
            cols,
            canon.last().0,
            canon.last().1,
        )
    }
}

/// The columns of the dataset that the canonical schema does not name, or
/// that repeat the name of an earlier column, in dataset order.
pub open spec fn unexpected_issues(cols: Seq<ColumnInfo>) -> Seq<IssueView>
    decreases cols.len(),
{
    if cols.len() == 0 {
        Seq::empty()
    } else {
        let rest = unexpected_issues(cols.drop_last());
        if lookup_type(canonical_schema(), cols.last().name@) is None || !is_first_named(
            cols,
            cols.last().name@,
            cols.len() - 1,
        ) {
            rest.push(IssueView::Unexpected(cols.last().name@))
        } else {
            rest
        }
    }
}

/// Every discrepancy of a dataset from the canonical schema: first those of
/// the canonical columns in schema order, then the unexpected columns.
pub open spec fn schema_issues(cols: Seq<ColumnInfo>) -> Seq<IssueView> {
    required_issues(cols, canonical_schema()) + unexpected_issues(cols)
}

/// Report line of one discrepancy.
pub open spec fn issue_text(i: IssueView) -> Seq<char> {
    match i {
        IssueView::Missing(n) => "Missing required column: "@ + n,
        IssueView::Unexpected(n) => "Unexpected column found: "@ + n
            + ". Schema must match exactly."@,
        IssueView::WrongType(n, t, f) => "Column '"@ + n + "' has incorrect type. Expected "@
            + dtype_label(t) + ", found "@ + f,
        IssueView::Nulls(n, k) => "Column '"@ + n + "' contains "@ + decimal(k as nat)
            + " null value(s). All columns must be non-nullable."@,
    }
}

impl SchemaIssue {
    /// The report line of this discrepancy.
    pub fn message(&self) -> (r: String)
        ensures
            r@ == issue_text(self@),
    {
        match self {
            SchemaIssue::MissingColumn(n) => {
                let mut s = String::from_str("Missing required column: ");
                s.append(n.as_str());
                s
            },
            SchemaIssue::UnexpectedColumn(n) => {
                let mut s = String::from_str("Unexpected column found: ");
                s.append(n.as_str());
                s.append(". Schema must match exactly.");
                s
            },
            SchemaIssue::WrongType { column, expected, found } => {
                let mut s = String::from_str("Column '");
                s.append(column.as_str());
                s.append("' has incorrect type. Expected ");
                s.append(dtype_label_text(*expected));
                s.append(", found ");
                s.append(found.as_str());
                s
            },
            SchemaIssue::NullValues { column, count } => {
                let mut s = String::from_str("Column '");
                s.append(column.as_str());
                s.append("' contains ");
                let k = decimal_text(*count);
                s.append(k.as_str());
                s.append(" null value(s). All columns must be non-nullable.");
                s
            },
        }
    }
}

/// A dataset that fails the canonical schema, with every discrepancy found.
#[derive(Debug, Clone)]
pub struct SchemaError {
    pub issues: Vec<SchemaIssue>,
}

pub open spec fn issues_text(s: Seq<IssueView>) -> Seq<char> {
    joined_lines(s.map_values(|i: IssueView| issue_text(i)))
}

impl SchemaError {
    /// All report lines, one per discrepancy.
    pub fn message(&self) -> (r: String)
        ensures
            r@ == issues_text(issue_views(self.issues@)),
    {
        let mut lines: Vec<String> = Vec::new();
        let mut i: usize = 0;
        while i < self.issues.len()
            invariant
                i <= self.issues.len(),
                string_views(lines@) =~= issue_views(self.issues@).subrange(0, i as int).map_values(
                    |x: IssueView| issue_text(x),
                ),
            decreases self.issues.len() - i,
        {
            let line = self.issues[i].message();
            let ghost before = lines@;
            lines.push(line);
            proof {
                let v = issue_views(self.issues@);
                assert(string_views(lines@) =~= string_views(before).push(line@));
                assert(v.subrange(0, i + 1).map_values(|x: IssueView| issue_text(x))
                    =~= v.subrange(0, i as int).map_values(|x: IssueView| issue_text(x)).push(
                    issue_text(v[i as int]),
                ));
            }
            i = i + 1;
        }
        assert(issue_views(self.issues@).map_values(|x: IssueView| issue_text(x)) =~= issue_views(
            self.issues@,
        ).subrange(0, self.issues.len() as int).map_values(|x: IssueView| issue_text(x)));
        join_lines(&lines)
    }

    pub fn to_app_error(&self) -> (r: AppError)
        ensures
            r.message@ == issues_text(issue_views(self.issues@)),
            r.code is None,
    {
        AppError::from_message(self.message())
    }
}

fn push_column_issues(
    issues: &mut Vec<SchemaIssue>,
    cols: &Vec<ColumnInfo>,
    name: &'static str,
    expected: ColumnType,
)
    ensures
        issue_views(final(issues)@) == issue_views(old(issues)@) + column_issues(
            cols@,
            name@,
            expected,
        ),
{
    let ghost start = issue_views(issues@);
    match find_column(cols, name) {
        None => {
            issues.push(SchemaIssue::MissingColumn(String::from_str(name)));
            assert(issue_views(issues@) =~= start + column_issues(cols@, name@, expected));
        },
        Some(j) => {
            let c = &cols[j];
            if c.dtype != expected {
                issues.push(
                    SchemaIssue::WrongType {
                        column: String::from_str(name),
                        expected,
                        found: c.dtype_name.clone(),
                    },
                );
            }
            let ghost mid = issue_views(issues@);
            if c.null_count > 0 {
                issues.push(
                    SchemaIssue::NullValues { column: String::from_str(name), count: c.null_count },
                );
            }
            assert(issue_views(issues@) =~= start + column_issues(cols@, name@, expected));
        },
    }
}

/// Checks datasets against the canonical deal schema.
pub struct ParquetValidator;

impl ParquetValidator {
    /// Checks the declared columns of a dataset against the canonical deal
    /// schema: the column set must be exactly the canonical one, each column
    /// of its canonical type, and no column may hold a null. Every
    /// discrepancy is reported, not only the first.
    pub fn validate_deals_schema(columns: &Vec<ColumnInfo>) -> (r: Result<(), SchemaError>)
        ensures
            r is Ok <==> schema_issues(columns@).len() == 0,
            r matches Err(e) ==> issue_views(e.issues@) == schema_issues(columns@),
    {
        let schema = deals_schema();
        let ghost canon = canonical_schema();
        let mut issues: Vec<SchemaIssue> = Vec::new();
        let mut i: usize = 0;
        while i < schema.len()
            invariant
                i <= schema.len(),
                schema_view(schema@) == canon,
                canon == canonical_schema(),
                issue_views(issues@) == required_issues(columns@, canon.subrange(0, i as int)),
            decreases schema.len() - i,
        {
            assert(schema_view(schema@)[i as int] == (schema@[i as int].0@, schema@[i as int].1));
            push_column_issues(&mut issues, columns, schema[i].0, schema[i].1);
            assert(canon.subrange(0, i + 1).drop_last() =~= canon.subrange(0, i as int));
            i = i + 1;
        }
        assert(canon.subrange(0, schema.len() as int) =~= canon);
        let mut j: usize = 0;
        while j < columns.len()
            invariant
                j <= columns.len(),
                issue_views(issues@) == required_issues(columns@, canonical_schema())
                    + unexpected_issues(columns@.subrange(0, j as int)),
            decreases columns.len() - j,
        {
            let ghost before = issue_views(issues@);
            assert(columns@.subrange(0, j + 1).drop_last() =~= columns@.subrange(0, j as int));
            let ghost name = columns@[j as int].name@;
            let ghost prefix = columns@.subrange(0, j + 1);
            let first = find_column(columns, columns[j].name.as_str());
            proof {
                lemma_some_named_has_first(columns@, name, j as int);
                let f = choose|f: int| is_first_named(columns@, name, f);
                lemma_first_named_unique(columns@, name, f);
                if is_first_named(columns@, name, j as int) {
                    assert forall|k: int| 0 <= k < j implies prefix[k].name@ != name by {
                        assert(prefix[k] == columns@[k]);
                    }
                    assert(is_first_named(prefix, name, j as int));
                }
                if is_first_named(prefix, name, j as int) {
                    assert forall|k: int| 0 <= k < j implies columns@[k].name@ != name by {
                        assert(prefix[k] == columns@[k]);
                    }
                    assert(is_first_named(columns@, name, j as int));
                }
                if first != Some(j) {
                    assert(f != j);
                    if f > j {
                        assert(columns@[j as int].name@ == name);
                    }
                }
            }
            let repeated = match first {
                Some(f) => f != j,
                None => true,
            };
            if get_column_type(columns[j].name.as_str()).is_none() || repeated {
                issues.push(SchemaIssue::UnexpectedColumn(columns[j].name.clone()));
                assert(issue_views(issues@) =~= before.push(
                    IssueView::Unexpected(columns@[j as int].name@),
                ));
            }
            j = j + 1;
        }
        assert(columns@.subrange(0, columns.len() as int) =~= columns@);
        if issues.len() == 0 {
            Ok(())
        } else {
            Err(SchemaError { issues })
        }
    }
}


/// Column names of a dataset are pairwise distinct, as storage guarantees.
pub open spec fn distinct_names(cols: Seq<ColumnInfo>) -> bool {
    forall|a: int, b: int| 0 <= a < b < cols.len() ==> cols[a].name@ != cols[b].name@
}

proof fn lemma_canonical_names_distinct()
    ensures
        forall|a: int, b: int|
            0 <= a < b < canonical_schema().len() ==> canonical_schema()[a].0
                != canonical_schema()[b].0,
{
    reveal_strlit("ticket");
    reveal_strlit("order");
    reveal_strlit("time");
    reveal_strlit("time_msc");
    reveal_strlit("type");
    reveal_strlit("entry");
    reveal_strlit("magic");
    reveal_strlit("position_id");
    reveal_strlit("reason");
    reveal_strlit("volume");
    reveal_strlit("price");
    reveal_strlit("commission");
    reveal_strlit("swap");
    reveal_strlit("profit");
    reveal_strlit("fee");
    reveal_strlit("symbol");
    reveal_strlit("comment");
    reveal_strlit("external_id");
    let c = canonical_schema();
    assert forall|a: int, b: int| 0 <= a < b < c.len() implies c[a].0 != c[b].0 by {
        if c[a].0 == c[b].0 {
            assert(c[a].0.len() == c[b].0.len());
            assert(c[a].0[0] == c[b].0[0]);
            assert(c[a].0[c[a].0.len() - 1] == c[b].0[c[b].0.len() - 1]);
            assert(c[a].0[1] == c[b].0[1]);
        }
    }
}

proof fn lemma_lookup_distinct(s: Seq<(Seq<char>, ColumnType)>, k: int)
    requires
        0 <= k < s.len(),
        forall|a: int, b: int| 0 <= a < b < s.len() ==> s[a].0 != s[b].0,
    ensures
        lookup_type(s, s[k].0) == Some(s[k].1),
    decreases k,
{
    if k > 0 {
        let t = s.drop_first();
        assert(s[0].0 != s[k].0);
        assert(t[k - 1] == s[k]);
        lemma_lookup_distinct(t, k - 1);
    }
}

proof fn lemma_lookup_member(s: Seq<(Seq<char>, ColumnType)>, k: int, name: Seq<char>)
    requires
        0 <= k < s.len(),
        s[k].0 == name,
    ensures
        lookup_type(s, name) is Some,
    decreases k,
{
    if k > 0 && s[0].0 != name {
        let t = s.drop_first();
        assert(t[k - 1] == s[k]);
        lemma_lookup_member(t, k - 1, name);
    }
}

proof fn lemma_required_issues_include(
    cols: Seq<ColumnInfo>,
    canon: Seq<(Seq<char>, ColumnType)>,
    k: int,
    x: IssueView,
)
    requires
        0 <= k < canon.len(),
        column_issues(cols, canon[k].0, canon[k].1).contains(x),
    ensures
        required_issues(cols, canon).contains(x),
    decreases canon.len(),
{
    let a = required_issues(cols, canon.drop_last());
    let b = column_issues(cols, canon.last().0, canon.last().1);
    assert(required_issues(cols, canon) == a + b);
    if k == canon.len() - 1 {
        let i = choose|i: int| 0 <= i < b.len() && b[i] == x;
        assert((a + b)[a.len() + i] == x);
    } else {
        assert(canon.drop_last()[k] == canon[k]);
        lemma_required_issues_include(cols, canon.drop_last(), k, x);
        let i = choose|i: int| 0 <= i < a.len() && a[i] == x;
        assert((a + b)[i] == x);
    }
}

proof fn lemma_schema_issues_include(cols: Seq<ColumnInfo>, k: int, x: IssueView)
    requires
        0 <= k < canonical_schema().len(),
        column_issues(cols, canonical_schema()[k].0, canonical_schema()[k].1).contains(x),
    ensures
        schema_issues(cols).contains(x),
{
    let a = required_issues(cols, canonical_schema());
    lemma_required_issues_include(cols, canonical_schema(), k, x);
    let i = choose|i: int| 0 <= i < a.len() && a[i] == x;
    assert((a + unexpected_issues(cols))[i] == x);
}

/// A dataset that lacks a column of the canonical schema fails validation,
/// and the report names that column as missing.
pub proof fn lemma_missing_column_reported(cols: Seq<ColumnInfo>, k: int)
    requires
        0 <= k < canonical_schema().len(),
        forall|j: int| 0 <= j < cols.len() ==> cols[j].name@ != canonical_schema()[k].0,
    ensures
        schema_issues(cols).contains(IssueView::Missing(canonical_schema()[k].0)),
{
    let name = canonical_schema()[k].0;
    assert(!exists|j: int| is_first_named(cols, name, j));
    let b = column_issues(cols, name, canonical_schema()[k].1);
    assert(b[0] == IssueView::Missing(name));
    lemma_schema_issues_include(cols, k, IssueView::Missing(name));
}

/// A dataset with a null in a column of the canonical schema fails
/// validation, and the report gives that column's null count.
pub proof fn lemma_null_values_reported(cols: Seq<ColumnInfo>, k: int, j: int)
    requires
        distinct_names(cols),
        0 <= k < canonical_schema().len(),
        0 <= j < cols.len(),
        cols[j].name@ == canonical_schema()[k].0,
        cols[j].null_count > 0,
    ensures
        schema_issues(cols).contains(IssueView::Nulls(canonical_schema()[k].0, cols[j].null_count)),
{
    let name = canonical_schema()[k].0;
    assert(is_first_named(cols, name, j));
    lemma_first_named_unique(cols, name, j);
    let b = column_issues(cols, name, canonical_schema()[k].1);
    let x = IssueView::Nulls(name, cols[j].null_count);
    assert(b[b.len() - 1] == x);
    lemma_schema_issues_include(cols, k, x);
}

proof fn lemma_no_unexpected(cols: Seq<ColumnInfo>)
    requires
        distinct_names(cols),
        forall|j: int| 0 <= j < cols.len() ==> lookup_type(canonical_schema(), cols[j].name@) is Some,
    ensures
        unexpected_issues(cols) == Seq::<IssueView>::empty(),
    decreases cols.len(),
{
    if cols.len() > 0 {
        lemma_no_unexpected(cols.drop_last());
        assert(is_first_named(cols, cols.last().name@, cols.len() - 1));
    }
}

proof fn lemma_required_issues_empty(
    cols: Seq<ColumnInfo>,
    canon: Seq<(Seq<char>, ColumnType)>,
    k: int,
)
    requires
        required_issues(cols, canon).len() == 0,
        0 <= k < canon.len(),
    ensures
        column_issues(cols, canon[k].0, canon[k].1).len() == 0,
    decreases canon.len(),
{
    if k < canon.len() - 1 {
        assert(canon.drop_last()[k] == canon[k]);
        lemma_required_issues_empty(cols, canon.drop_last(), k);
    }
}

proof fn lemma_unexpected_issues_empty(cols: Seq<ColumnInfo>, j: int)
    requires
        unexpected_issues(cols).len() == 0,
        0 <= j < cols.len(),
    ensures
        lookup_type(canonical_schema(), cols[j].name@) is Some,
        is_first_named(cols, cols[j].name@, j),
    decreases cols.len(),
{
    let d = cols.drop_last();
    if j < cols.len() - 1 {
        lemma_unexpected_issues_empty(d, j);
        assert(d[j] == cols[j]);
        assert forall|k: int| 0 <= k < j implies cols[k].name@ != cols[j].name@ by {
            assert(d[k] == cols[k]);
        }
    }
}

/// A dataset that passes validation has exactly the canonical columns: each
/// of its columns is named by the canonical schema and named once, and each
/// canonical column is present with its canonical type and no null.
pub proof fn lemma_valid_dataset_is_canonical(cols: Seq<ColumnInfo>)
    requires
        schema_issues(cols).len() == 0,
    ensures
        distinct_names(cols),
        forall|j: int|
            0 <= j < cols.len() ==> lookup_type(canonical_schema(), #[trigger] cols[j].name@) is Some,
        forall|k: int|
            0 <= k < canonical_schema().len() ==> exists|j: int|
                0 <= j < cols.len() && cols[j].name@ == #[trigger] canonical_schema()[k].0
                    && cols[j].dtype == canonical_schema()[k].1 && cols[j].null_count == 0,
{
    let c = canonical_schema();
    assert(required_issues(cols, c).len() == 0);
    assert(unexpected_issues(cols).len() == 0);
    assert forall|a: int, b: int| 0 <= a < b < cols.len() implies cols[a].name@ != cols[b].name@ by {
        lemma_unexpected_issues_empty(cols, b);
    }
    assert forall|j: int| 0 <= j < cols.len() implies lookup_type(c, #[trigger] cols[j].name@) is Some by {
        lemma_unexpected_issues_empty(cols, j);
    }
    assert forall|k: int| 0 <= k < c.len() implies exists|j: int|
        0 <= j < cols.len() && cols[j].name@ == #[trigger] c[k].0 && cols[j].dtype == c[k].1
            && cols[j].null_count == 0 by {
        lemma_required_issues_empty(cols, c, k);
        let j = column_named(cols, c[k].0)->0;
        assert(is_first_named(cols, c[k].0, j));
        let t = if cols[j].dtype != c[k].1 {
            seq![IssueView::WrongType(c[k].0, c[k].1, cols[j].dtype_name@)]
        } else {
            Seq::empty()
        };
        let n = if cols[j].null_count > 0 {
            seq![IssueView::Nulls(c[k].0, cols[j].null_count)]
        } else {
            Seq::empty()
        };
        assert(column_issues(cols, c[k].0, c[k].1) == t + n);
    }
}

/// A dataset whose columns are exactly those of the canonical schema, each
/// of its canonical type and without nulls, passes validation.
pub proof fn lemma_canonical_dataset_passes(cols: Seq<ColumnInfo>)
    requires
        distinct_names(cols),
        forall|j: int|
            0 <= j < cols.len() ==> lookup_type(canonical_schema(), cols[j].name@) == Some(
                cols[j].dtype,
            ) && cols[j].null_count == 0,
        forall|k: int|
            0 <= k < canonical_schema().len() ==> exists|j: int|
                0 <= j < cols.len() && cols[j].name@ == #[trigger] canonical_schema()[k].0,
    ensures
        schema_issues(cols).len() == 0,
{
    let c = canonical_schema();
    lemma_canonical_names_distinct();
    lemma_no_unexpected(cols);
    lemma_canonical_prefix_passes(cols, c.len() as int);
    assert(c.subrange(0, c.len() as int) =~= c);
}

proof fn lemma_canonical_prefix_passes(cols: Seq<ColumnInfo>, n: int)
    requires
        0 <= n <= canonical_schema().len(),
        forall|a: int, b: int|
            0 <= a < b < canonical_schema().len() ==> canonical_schema()[a].0
                != canonical_schema()[b].0,
        forall|j: int|
            0 <= j < cols.len() ==> lookup_type(canonical_schema(), cols[j].name@) == Some(
                cols[j].dtype,
            ) && cols[j].null_count == 0,
        forall|k: int|
            0 <= k < canonical_schema().len() ==> exists|j: int|
                0 <= j < cols.len() && cols[j].name@ == #[trigger] canonical_schema()[k].0,
    ensures
        required_issues(cols, canonical_schema().subrange(0, n)).len() == 0,
    decreases n,
{
    let c = canonical_schema();
    if n > 0 {
        let m = n - 1;
        lemma_canonical_prefix_passes(cols, m);
        let p = c.subrange(0, n);
        assert(p.drop_last() =~= c.subrange(0, m));
        assert(p.last() == c[m]);
        let j = choose|j: int| 0 <= j < cols.len() && cols[j].name@ == c[m].0;
        lemma_some_named_has_first(cols, c[m].0, j);
        let f = choose|f: int| is_first_named(cols, c[m].0, f);
        lemma_first_named_unique(cols, c[m].0, f);
        lemma_lookup_distinct(c, m);
        assert(column_issues(cols, c[m].0, c[m].1).len() == 0);
    }
}

} // verus!
