//! What the database is asked, and what it answers.

use crate::text;
use vstd::prelude::*;

verus! {

broadcast use {text::lemma_views_push, text::lemma_views_len, text::lemma_views_index};

/// The value of a parameter.
#[derive(Debug, PartialEq, Eq)]
pub enum SqlValue<S> {
    Text(S),
    Integer(i64),
}

impl View for SqlValue<String> {
    type V = SqlValue<Seq<char>>;

    open spec fn view(&self) -> SqlValue<Seq<char>> {
        match self {
            SqlValue::Text(s) => SqlValue::Text(s@),
            SqlValue::Integer(n) => SqlValue::Integer(*n),
        }
    }
}

/// As what a column is read.
#[derive(Clone, Copy, Debug, PartialEq, Eq, Structural)]
pub enum ColumnKind {
    Text,
    Integer,
}

/// A column that is read, by its place in the row.
#[derive(Clone, Copy, Debug, PartialEq, Eq)]
pub struct Column {
    pub index: usize,
    pub kind: ColumnKind,
}

/// A request to the database.
#[derive(Debug, PartialEq, Eq)]
pub enum DbRequest {
    /// Execute one statement.
    Execute { sql: &'static str, params: Vec<SqlValue<String>> },
    /// Execute several statements that have no parameters.
    Batch { sql: &'static str },
    /// Prepare and run a query, and read the columns of each of its rows, or of the
    /// first one alone.
    Query {
        sql: &'static str,
        params: Vec<SqlValue<String>>,
        columns: Vec<Column>,
        first_only: bool,
    },
}

#[verifier::ext_equal]
pub enum DbRequestView {
    Execute { sql: Seq<char>, params: Seq<SqlValue<Seq<char>>> },
    Batch { sql: Seq<char> },
    Query {
        sql: Seq<char>,
        params: Seq<SqlValue<Seq<char>>>,
        columns: Seq<Column>,
        first_only: bool,
    },
}

impl View for DbRequest {
    type V = DbRequestView;

    open spec fn view(&self) -> DbRequestView {
        match self {
            DbRequest::Execute { sql, params } => DbRequestView::Execute {
                sql: sql@,
                params: text::views(params@),
            },
            DbRequest::Batch { sql } => DbRequestView::Batch { sql: sql@ },
            DbRequest::Query { sql, params, columns, first_only } => DbRequestView::Query {
                sql: sql@,
                params: text::views(params@),
                columns: columns@,
                first_only: *first_only,
            },
        }
    }
}

/// What was read from one column of one row, or why it could not be read.
#[derive(Debug, PartialEq, Eq)]
pub enum Cell<S> {
    Text(S),
    Integer(i64),
    Failed(S),
}

impl View for Cell<String> {
    type V = Cell<Seq<char>>;

    open spec fn view(&self) -> Cell<Seq<char>> {
        match self {
            Cell::Text(s) => Cell::Text(s@),
            Cell::Integer(n) => Cell::Integer(*n),
            Cell::Failed(e) => Cell::Failed(e@),
        }
    }
}

/// The columns that were read from one row.
#[derive(Debug, PartialEq, Eq)]
pub struct Row {
    pub cells: Vec<Cell<String>>,
}

impl View for Row {
    type V = Seq<Cell<Seq<char>>>;

    open spec fn view(&self) -> Seq<Cell<Seq<char>>> {
        text::views(self.cells@)
    }
}

/// The database's answer to a request.
#[derive(Debug, PartialEq, Eq)]
pub enum DbReply {
    /// The statement was executed.
    Done,
    /// The statement failed.
    Failed(String),
    /// The query could not be prepared.
    PrepareFailed(String),
    /// The query could not be run.
    RunFailed(String),
    /// The rows that were read, and why no further one could be read, where that is
    /// how reading ended.
    Rows { rows: Vec<Row>, broken: Option<String> },
}

#[verifier::ext_equal]
pub enum DbReplyView {
    Done,
    Failed(Seq<char>),
    PrepareFailed(Seq<char>),
    RunFailed(Seq<char>),
    Rows { rows: Seq<Seq<Cell<Seq<char>>>>, broken: Option<Seq<char>> },
}

impl View for DbReply {
    type V = DbReplyView;

    open spec fn view(&self) -> DbReplyView {
        match self {
            DbReply::Done => DbReplyView::Done,
            DbReply::Failed(e) => DbReplyView::Failed(e@),
            DbReply::PrepareFailed(e) => DbReplyView::PrepareFailed(e@),
            DbReply::RunFailed(e) => DbReplyView::RunFailed(e@),
            DbReply::Rows { rows, broken } => DbReplyView::Rows {
                rows: text::views(rows@),
                broken: text::option_text(*broken),
            },
        }
    }
}

/// Whether the cell is what reading a column of this kind can give.
pub open spec fn cell_fits(kind: ColumnKind, cell: Cell<Seq<char>>) -> bool {
    match cell {
        Cell::Text(_) => kind == ColumnKind::Text,
        Cell::Integer(_) => kind == ColumnKind::Integer,
        Cell::Failed(_) => true,
    }
}

/// Whether the row holds just what reading the columns can give.
pub open spec fn row_fits(columns: Seq<Column>, row: Seq<Cell<Seq<char>>>) -> bool {
    &&& row.len() == columns.len()
    &&& forall|i: int| 0 <= i < row.len() ==> cell_fits(columns[i].kind, #[trigger] row[i])
}

/// Whether each row holds just what reading the columns can give.
pub open spec fn rows_fit(columns: Seq<Column>, rows: Seq<Seq<Cell<Seq<char>>>>) -> bool {
    forall|i: int| 0 <= i < rows.len() ==> row_fits(columns, #[trigger] rows[i])
}

/// Whether the reply is one that the request can get.
pub open spec fn fits(request: DbRequestView, reply: DbReplyView) -> bool {
    match request {
        DbRequestView::Query { sql, params, columns, first_only } => match reply {
            DbReplyView::PrepareFailed(_) => true,
            DbReplyView::RunFailed(_) => true,
            DbReplyView::Rows { rows, broken } => {
                &&& first_only ==> rows.len() <= 1 && (rows.len() == 1 ==> broken is None)
                &&& rows_fit(columns, rows)
            },
            _ => false,
        },
        _ => reply is Done || reply is Failed,
    }
}

fn row_accepted(columns: &Vec<Column>, row: &Row) -> (r: bool)
    ensures
        r == row_fits(columns@, row@),
{
    if row.cells.len() != columns.len() {
        return false;
    }
    let mut i: usize = 0;
    while i < row.cells.len()
        invariant
            row.cells@.len() == columns@.len(),
            i <= row.cells@.len(),
            forall|j: int| 0 <= j < i ==> cell_fits(columns@[j].kind, #[trigger] row@[j]),
        decreases row.cells@.len() - i,
    {
        let ok = match &row.cells[i] {
            Cell::Text(_) => columns[i].kind == ColumnKind::Text,
            Cell::Integer(_) => columns[i].kind == ColumnKind::Integer,
            Cell::Failed(_) => true,
        };
        if !ok {
            assert(!cell_fits(columns@[i as int].kind, row@[i as int]));
            return false;
        }
        i = i + 1;
    }
    true
}

fn rows_accepted(columns: &Vec<Column>, rows: &Vec<Row>) -> (r: bool)
    ensures
        r == rows_fit(columns@, text::views(rows@)),
{
    let ghost all: Seq<Seq<Cell<Seq<char>>>> = text::views(rows@);
    let mut i: usize = 0;
    while i < rows.len()
        invariant
            i <= rows@.len(),
            all == text::views(rows@),
            forall|j: int| 0 <= j < i ==> row_fits(columns@, #[trigger] all[j]),
        decreases rows@.len() - i,
    {
        if !row_accepted(columns, &rows[i]) {
            assert(!row_fits(columns@, all[i as int]));
            return false;
        }
        i = i + 1;
    }
    true
}

impl DbRequest {
    /// Tells whether the reply is one that the request can get.
    pub fn accepts(&self, reply: &DbReply) -> (r: bool)
        ensures
            r == fits(self@, reply@),
    {
        match self {
            DbRequest::Query { sql: _, params: _, columns, first_only } => match reply {
                DbReply::PrepareFailed(_) => true,
                DbReply::RunFailed(_) => true,
                DbReply::Rows { rows, broken } => {
                    if *first_only && (rows.len() > 1 || (rows.len() == 1 && broken.is_some())) {
                        return false;
                    }
                    rows_accepted(columns, rows)
                },
                _ => false,
            },
            _ => match reply {
                DbReply::Done => true,
                DbReply::Failed(_) => true,
                _ => false,
            },
        }
    }
}

/// What a failed query is reported with: the text before the database's own words,
/// for each way in which it can fail.
#[derive(Debug, PartialEq, Eq)]
pub struct Labels<S> {
    pub prepare: S,
    pub run: S,
    pub step: S,
}

impl View for Labels<String> {
    type V = Labels<Seq<char>>;

    open spec fn view(&self) -> Labels<Seq<char>> {
        Labels { prepare: self.prepare@, run: self.run@, step: self.step@ }
    }
}

/// The result of a statement.
pub open spec fn executed(reply: DbReplyView, label: Seq<char>) -> Result<(), Seq<char>> {
    match reply {
        DbReplyView::Done => Ok(()),
        DbReplyView::Failed(e) => Err(label + e),
        _ => arbitrary(),
    }
}

/// Reads the result of a statement.
pub fn execute_result(reply: &DbReply, label: &str) -> (r: Result<(), String>)
    requires
        reply@ is Done || reply@ is Failed,
    ensures
        match executed(reply@, label@) {
            Ok(()) => r is Ok,
            Err(e) => r is Err && r->Err_0@ == e,
        },
{
    match reply {
        DbReply::Failed(e) => Err(text::concat2(label, e.as_str())),
        _ => Ok(()),
    }
}

/// Whether the reply is one that a query can get.
pub open spec fn answers_query(reply: DbReplyView) -> bool {
    reply is PrepareFailed || reply is RunFailed || reply is Rows
}

/// The first row of a query, where it has one.
pub open spec fn first_row(reply: DbReplyView, labels: Labels<Seq<char>>) -> Result<
    Option<Seq<Cell<Seq<char>>>>,
    Seq<char>,
> {
    match reply {
        DbReplyView::PrepareFailed(e) => Err(labels.prepare + e),
        DbReplyView::RunFailed(e) => Err(labels.run + e),
        DbReplyView::Rows { rows, broken } => if rows.len() > 0 {
            Ok(Some(rows[0]))
        } else {
            match broken {
                Some(e) => Err(labels.step + e),
                None => Ok(None),
            }
        },
        _ => arbitrary(),
    }
}

/// Reads the first row of a query.
pub fn read_first<'a>(reply: &'a DbReply, labels: &Labels<String>) -> (r: Result<
    Option<&'a Row>,
    String,
>)
    requires
        answers_query(reply@),
    ensures
        match first_row(reply@, labels@) {
            Ok(Some(row)) => r matches Ok(Some(x)) && x@ == row,
            Ok(None) => r matches Ok(None),
            Err(e) => r is Err && r->Err_0@ == e,
        },
{
    match reply {
        DbReply::PrepareFailed(e) => Err(text::concat2(labels.prepare.as_str(), e.as_str())),
        DbReply::RunFailed(e) => Err(text::concat2(labels.run.as_str(), e.as_str())),
        DbReply::Rows { rows, broken } => {
            if rows.len() > 0 {
                Ok(Some(&rows[0]))
            } else {
                match broken {
                    Some(e) => Err(text::concat2(labels.step.as_str(), e.as_str())),
                    None => Ok(None),
                }
            }
        },
        _ => {
            assert(false);
            Ok(None)
        },
    }
}

/// The text in a cell, or what is reported where it could not be read.
pub open spec fn cell_text(cell: Cell<Seq<char>>, label: Seq<char>) -> Result<
    Seq<char>,
    Seq<char>,
> {
    match cell {
        Cell::Text(s) => Ok(s),
        Cell::Failed(e) => Err(label + e),
        Cell::Integer(_) => arbitrary(),
    }
}

/// Reads the text in a cell.
pub fn read_text(cell: &Cell<String>, label: &str) -> (r: Result<String, String>)
    requires
        cell_fits(ColumnKind::Text, cell@),
    ensures
        match cell_text(cell@, label@) {
            Ok(s) => r is Ok && r->Ok_0@ == s,
            Err(e) => r is Err && r->Err_0@ == e,
        },
{
    match cell {
        Cell::Text(s) => Ok(s.clone()),
        Cell::Failed(e) => Err(text::concat2(label, e.as_str())),
        Cell::Integer(_) => Err(String::new()),
    }
}

/// The number in a cell, or what is reported where it could not be read.
pub open spec fn cell_integer(cell: Cell<Seq<char>>, label: Seq<char>) -> Result<i64, Seq<char>> {
    match cell {
        Cell::Integer(n) => Ok(n),
        Cell::Failed(e) => Err(label + e),
        Cell::Text(_) => arbitrary(),
    }
}

/// Reads the number in a cell.
pub fn read_integer(cell: &Cell<String>, label: &str) -> (r: Result<i64, String>)
    requires
        cell_fits(ColumnKind::Integer, cell@),
    ensures
        match cell_integer(cell@, label@) {
            Ok(n) => r == Ok::<i64, String>(n),
            Err(e) => r is Err && r->Err_0@ == e,
        },
{
    match cell {
        Cell::Integer(n) => Ok(*n),
        Cell::Failed(e) => Err(text::concat2(label, e.as_str())),
        Cell::Text(_) => Ok(0),
    }
}

/// All the values, or the first error among them.
pub open spec fn collected<T>(items: Seq<Result<T, Seq<char>>>) -> Result<Seq<T>, Seq<char>>
    decreases items.len(),
{
    if items.len() == 0 {
        Ok(Seq::empty())
    } else {
        match collected(items.drop_last()) {
            Ok(before) => match items.last() {
                Ok(x) => Ok(before.push(x)),
                Err(e) => Err(e),
            },
            Err(e) => Err(e),
        }
    }
}

/// Once there is an error, what comes behind it changes nothing.
pub proof fn lemma_collected_error<T>(items: Seq<Result<T, Seq<char>>>, n: int)
    requires
        0 <= n <= items.len(),
        collected(items.take(n)) is Err,
    ensures
        collected(items) == collected(items.take(n)),
    decreases items.len() - n,
{
    if n == items.len() {
        assert(items.take(n) =~= items);
    } else {
        assert(items.take(n + 1).drop_last() =~= items.take(n));
        lemma_collected_error(items, n + 1);
    }
}

/// Each row of a query, read by `read`; or what is reported: the failed query, the
/// first row that could not be read, or that no further row could be fetched.
pub open spec fn all_rows<T>(
    reply: DbReplyView,
    labels: Labels<Seq<char>>,
    read: spec_fn(Seq<Cell<Seq<char>>>) -> Result<T, Seq<char>>,
) -> Result<Seq<T>, Seq<char>> {
    match reply {
        DbReplyView::PrepareFailed(e) => Err(labels.prepare + e),
        DbReplyView::RunFailed(e) => Err(labels.run + e),
        DbReplyView::Rows { rows, broken } => match collected(rows.map_values(read)) {
            Ok(items) => match broken {
                Some(e) => Err(labels.step + e),
                None => Ok(items),
            },
            Err(e) => Err(e),
        },
        _ => arbitrary(),
    }
}

/// Where each item has a value, all the values are there, in their order.
pub proof fn law_collected<T>(items: Seq<Result<T, Seq<char>>>, values: Seq<T>)
    requires
        items.len() == values.len(),
        forall|i: int|
            0 <= i < items.len() ==> #[trigger] items[i] == Ok::<T, Seq<char>>(values[i]),
    ensures
        collected(items) == Ok::<Seq<T>, Seq<char>>(values),
    decreases items.len(),
{
    if items.len() == 0 {
        assert(values =~= Seq::<T>::empty());
    } else {
        let before = items.drop_last();
        assert forall|i: int| 0 <= i < before.len() implies #[trigger] before[i] == Ok::<
            T,
            Seq<char>,
        >(values.drop_last()[i]) by {
            assert(before[i] == items[i]);
        }
        law_collected(before, values.drop_last());
        assert(items[items.len() - 1] == items.last());
        assert(values.drop_last().push(values.last()) =~= values);
    }
}

/// Where an item has none, the first such item is reported.
pub proof fn law_first_error<T>(items: Seq<Result<T, Seq<char>>>, k: int, e: Seq<char>)
    requires
        0 <= k < items.len(),
        items[k] == Err::<T, Seq<char>>(e),
        forall|i: int| 0 <= i < k ==> #[trigger] items[i] is Ok,
    ensures
        collected(items) == Err::<Seq<T>, Seq<char>>(e),
{
    let before = items.take(k);
    let values = Seq::new(k as nat, |i: int| items[i]->Ok_0);
    assert forall|i: int| 0 <= i < before.len() implies #[trigger] before[i] == Ok::<
        T,
        Seq<char>,
    >(values[i]) by {
        assert(items[i] is Ok);
    }
    law_collected(before, values);
    assert(items.take(k + 1).drop_last() =~= before);
    assert(items.take(k + 1).last() == items[k]);
    lemma_collected_error(items, k + 1);
}

/// A statement is answered by its success or its failure. A query is answered by its failure,
/// or by rows that have a cell for each column, of its kind or unreadable; where the first
/// row alone is read, by one row and nothing wrong behind it, or by none.
pub proof fn law_fits(
    sql: Seq<char>,
    params: Seq<SqlValue<Seq<char>>>,
    columns: Seq<Column>,
    first_only: bool,
    reply: DbReplyView,
)
    ensures
        fits(DbRequestView::Execute { sql, params }, reply) <==> reply is Done || reply is Failed,
        fits(DbRequestView::Batch { sql }, reply) <==> reply is Done || reply is Failed,
        fits(DbRequestView::Query { sql, params, columns, first_only }, reply) <==> match reply {
            DbReplyView::Done => false,
            DbReplyView::Failed(_) => false,
            DbReplyView::PrepareFailed(_) => true,
            DbReplyView::RunFailed(_) => true,
            DbReplyView::Rows { rows, broken } => {
                &&& !first_only || rows.len() == 0 || (rows.len() == 1 && broken is None)
                &&& forall|i: int|
                    0 <= i < rows.len() ==> (#[trigger] rows[i]).len() == columns.len() && forall|
                        j: int,
                    |
                        0 <= j < columns.len() ==> match #[trigger] rows[i][j] {
                            Cell::Text(_) => columns[j].kind is Text,
                            Cell::Integer(_) => columns[j].kind is Integer,
                            Cell::Failed(_) => true,
                        }
            },
        },
{
    if let DbReplyView::Rows { rows, broken } = reply {
        assert forall|i: int| 0 <= i < rows.len() implies row_fits(columns, #[trigger] rows[i]) == (
        rows[i].len() == columns.len() && forall|j: int|
            0 <= j < columns.len() ==> match #[trigger] rows[i][j] {
                Cell::Text(_) => columns[j].kind is Text,
                Cell::Integer(_) => columns[j].kind is Integer,
                Cell::Failed(_) => true,
            }) by {
            assert(forall|j: int|
                0 <= j < columns.len() ==> cell_fits(columns[j].kind, #[trigger] rows[i][j]) == (
                match rows[i][j] {
                    Cell::Text(_) => columns[j].kind is Text,
                    Cell::Integer(_) => columns[j].kind is Integer,
                    Cell::Failed(_) => true,
                }));
        }
    }
}

/// The rows of a query are read in their order and all of them. Where one cannot be read the
/// first such row is reported, and where no further row could be fetched that is.
pub proof fn law_all_rows<T>(
    rows: Seq<Seq<Cell<Seq<char>>>>,
    labels: Labels<Seq<char>>,
    read: spec_fn(Seq<Cell<Seq<char>>>) -> Result<T, Seq<char>>,
    values: Seq<T>,
    k: int,
    e: Seq<char>,
)
    ensures
        rows.len() == values.len() && (forall|i: int|
            0 <= i < rows.len() ==> read(#[trigger] rows[i]) == Ok::<T, Seq<char>>(values[i])) ==> {
            &&& all_rows(DbReplyView::Rows { rows, broken: None }, labels, read) == Ok::<
                Seq<T>,
                Seq<char>,
            >(values)
            &&& all_rows(DbReplyView::Rows { rows, broken: Some(e) }, labels, read) == Err::<
                Seq<T>,
                Seq<char>,
            >(labels.step + e)
        },
        0 <= k < rows.len() && read(rows[k]) == Err::<T, Seq<char>>(e) && (forall|i: int|
            0 <= i < k ==> read(#[trigger] rows[i]) is Ok) ==> forall|broken: Option<Seq<char>>|
            all_rows(#[trigger] rows_reply(rows, broken), labels, read) == Err::<
                Seq<T>,
                Seq<char>,
            >(e),
        all_rows(DbReplyView::PrepareFailed(e), labels, read) == Err::<Seq<T>, Seq<char>>(
            labels.prepare + e,
        ),
        all_rows(DbReplyView::RunFailed(e), labels, read) == Err::<Seq<T>, Seq<char>>(
            labels.run + e,
        ),
{
    let items = rows.map_values(read);
    if rows.len() == values.len() && (forall|i: int|
        0 <= i < rows.len() ==> read(#[trigger] rows[i]) == Ok::<T, Seq<char>>(values[i])) {
        assert forall|i: int| 0 <= i < items.len() implies #[trigger] items[i] == Ok::<
            T,
            Seq<char>,
        >(values[i]) by {
            assert(items[i] == read(rows[i]));
        }
        law_collected(items, values);
    }
    if 0 <= k < rows.len() && read(rows[k]) == Err::<T, Seq<char>>(e) && (forall|i: int|
        0 <= i < k ==> read(#[trigger] rows[i]) is Ok) {
        assert forall|i: int| 0 <= i < k implies #[trigger] items[i] is Ok by {
            assert(items[i] == read(rows[i]));
        }
        law_first_error(items, k, e);
    }
}

/// A reply with these rows.
pub open spec fn rows_reply(
    rows: Seq<Seq<Cell<Seq<char>>>>,
    broken: Option<Seq<char>>,
) -> DbReplyView {
    DbReplyView::Rows { rows, broken }
}

/// The first row of a query is the first that was read, where there is one.
pub proof fn law_first_row(
    rows: Seq<Seq<Cell<Seq<char>>>>,
    broken: Option<Seq<char>>,
    labels: Labels<Seq<char>>,
    e: Seq<char>,
)
    ensures
        rows.len() > 0 ==> first_row(DbReplyView::Rows { rows, broken }, labels) == Ok::<
            Option<Seq<Cell<Seq<char>>>>,
            Seq<char>,
        >(Some(rows[0])),
        rows.len() == 0 && broken is None ==> first_row(
            DbReplyView::Rows { rows, broken },
            labels,
        ) == Ok::<Option<Seq<Cell<Seq<char>>>>, Seq<char>>(None),
        rows.len() == 0 && broken == Some(e) ==> first_row(
            DbReplyView::Rows { rows, broken },
            labels,
        ) == Err::<Option<Seq<Cell<Seq<char>>>>, Seq<char>>(labels.step + e),
{
}

} // verus!
