//! Reading the rows of a query.

use crate::db;
use crate::db::StoredMessage;
use crate::sql;
use crate::sql::{Cell, Column, DbReply, Labels, Row};
use crate::text;
use vstd::prelude::*;

verus! {

broadcast use {text::lemma_views_push, text::lemma_views_len, text::lemma_views_index};

/// The name that a user is shown by: first and last name, the first name alone, or
/// else the user name.
pub open spec fn shown_name(
    username: Seq<char>,
    first_name: Option<Seq<char>>,
    last_name: Option<Seq<char>>,
) -> Seq<char> {
    match (first_name, last_name) {
        (Some(f), Some(l)) => f + " "@ + l,
        (Some(f), None) => f,
        _ => username,
    }
}

/// Makes the name that a user is shown by.
pub fn display_name(
    username: &str,
    first_name: &Option<String>,
    last_name: &Option<String>,
) -> (r: String)
    ensures
        r@ == shown_name(
            username@,
            text::option_text(*first_name),
            text::option_text(*last_name),
        ),
{
    match first_name {
        Some(f) => match last_name {
            Some(l) => text::concat3(f.as_str(), " ", l.as_str()),
            None => f.clone(),
        },
        None => username.to_owned(),
    }
}

/// What a row is read as.
pub enum LineReader<S> {
    /// The text of its one column. `label` stands before the database's words where
    /// it cannot be read.
    Name { label: S },
    /// A channel and its owner.
    Channel,
    /// A user and the name that the user is shown by.
    User,
}

impl View for LineReader<String> {
    type V = LineReader<Seq<char>>;

    open spec fn view(&self) -> LineReader<Seq<char>> {
        match self {
            LineReader::Name { label } => LineReader::Name { label: label@ },
            LineReader::Channel => LineReader::Channel,
            LineReader::User => LineReader::User,
        }
    }
}

/// The text in a cell, where it could be read.
pub open spec fn text_or_none(cell: Cell<Seq<char>>) -> Option<Seq<char>> {
    match cell {
        Cell::Text(s) => Some(s),
        _ => None,
    }
}

fn read_text_or_none(cell: &Cell<String>) -> (r: Option<String>)
    ensures
        text::option_text(r) == text_or_none(cell@),
{
    match cell {
        Cell::Text(s) => Some(s.clone()),
        _ => None,
    }
}

/// The columns of which such a line is made.
pub open spec fn line_columns(reader: LineReader<Seq<char>>) -> Seq<Column> {
    match reader {
        LineReader::Name { .. } => seq![db::text_at(0)],
        LineReader::Channel => seq![db::text_at(0), db::text_at(1)],
        LineReader::User => seq![db::text_at(0), db::text_at(1), db::text_at(2)],
    }
}

/// The line that a row is read as.
pub open spec fn line_of(reader: LineReader<Seq<char>>, row: Seq<Cell<Seq<char>>>) -> Result<
    Seq<char>,
    Seq<char>,
> {
    match reader {
        LineReader::Name { label } => sql::cell_text(row[0], label),
        LineReader::Channel => match sql::cell_text(row[0], Seq::empty()) {
            Ok(name) => match sql::cell_text(row[1], Seq::empty()) {
                Ok(owner) => Ok(name + "|"@ + owner),
                Err(e) => Err(e),
            },
            Err(e) => Err(e),
        },
        LineReader::User => match sql::cell_text(row[0], Seq::empty()) {
            Ok(username) => Ok(
                username + "|"@ + shown_name(
                    username,
                    text_or_none(row[1]),
                    text_or_none(row[2]),
                ),
            ),
            Err(e) => Err(e),
        },
    }
}

/// Reading rows as lines.
pub open spec fn line_reader(reader: LineReader<Seq<char>>) -> spec_fn(
    Seq<Cell<Seq<char>>>,
) -> Result<Seq<char>, Seq<char>> {
    |row: Seq<Cell<Seq<char>>>| line_of(reader, row)
}

fn read_plain(cell: &Cell<String>) -> (r: Result<String, String>)
    requires
        sql::cell_fits(sql::ColumnKind::Text, cell@),
    ensures
        match sql::cell_text(cell@, Seq::empty()) {
            Ok(s) => r is Ok && r->Ok_0@ == s,
            Err(e) => r is Err && r->Err_0@ == e,
        },
{
    proof {
        reveal_strlit("");
        assert(""@ =~= Seq::<char>::empty());
    }
    sql::read_text(cell, "")
}

fn read_line(reader: &LineReader<String>, row: &Row) -> (r: Result<String, String>)
    requires
        sql::row_fits(line_columns(reader@), row@),
    ensures
        match line_of(reader@, row@) {
            Ok(s) => r is Ok && r->Ok_0@ == s,
            Err(e) => r is Err && r->Err_0@ == e,
        },
{
    assert(sql::cell_fits(sql::ColumnKind::Text, row@[0]));
    match reader {
        LineReader::Name { label } => sql::read_text(&row.cells[0], label.as_str()),
        LineReader::Channel => {
            assert(sql::cell_fits(sql::ColumnKind::Text, row@[1]));
            match read_plain(&row.cells[0]) {
                Ok(name) => match read_plain(&row.cells[1]) {
                    Ok(owner) => Ok(text::concat3(name.as_str(), "|", owner.as_str())),
                    Err(e) => Err(e),
                },
                Err(e) => Err(e),
            }
        },
        LineReader::User => {
            match read_plain(&row.cells[0]) {
                Ok(username) => {
                    let first = read_text_or_none(&row.cells[1]);
                    let last = read_text_or_none(&row.cells[2]);
                    let shown = display_name(username.as_str(), &first, &last);
                    Ok(text::concat3(username.as_str(), "|", shown.as_str()))
                },
                Err(e) => Err(e),
            }
        },
    }
}

fn collect_lines(rows: &Vec<Row>, reader: &LineReader<String>) -> (r: Result<Vec<String>, String>)
    requires
        sql::rows_fit(line_columns(reader@), text::views(rows@)),
    ensures
        match sql::collected(text::views(rows@).map_values(line_reader(reader@))) {
            Ok(lines) => r is Ok && text::views(r->Ok_0@) == lines,
            Err(e) => r is Err && r->Err_0@ == e,
        },
{
    let ghost all: Seq<Seq<Cell<Seq<char>>>> = text::views(rows@);
    let ghost items = all.map_values(line_reader(reader@));
    let mut lines: Vec<String> = Vec::new();
    let mut i: usize = 0;
    assert(text::views(lines@) =~= Seq::<Seq<char>>::empty());
    assert(items.take(0) =~= Seq::<Result<Seq<char>, Seq<char>>>::empty());
    while i < rows.len()
        invariant
            i <= rows@.len(),
            all == text::views(rows@),
            sql::rows_fit(line_columns(reader@), all),
            items == all.map_values(line_reader(reader@)),
            sql::collected(items.take(i as int)) == Ok::<Seq<Seq<char>>, Seq<char>>(
                text::views(lines@),
            ),
        decreases rows@.len() - i,
    {
        assert(sql::row_fits(line_columns(reader@), all[i as int]));
        assert(items[i as int] == line_of(reader@, all[i as int]));
        assert(items.take(i + 1).drop_last() =~= items.take(i as int));
        assert(items.take(i + 1).last() == items[i as int]);
        match read_line(reader, &rows[i]) {
            Ok(line) => {
                lines.push(line);
            },
            Err(e) => {
                proof {
                    sql::lemma_collected_error(items, i + 1);
                }
                return Err(e);
            },
        }
        i = i + 1;
    }
    assert(items.take(items.len() as int) =~= items);
    Ok(lines)
}

/// The lines of a query.
pub open spec fn lines_of(
    reply: sql::DbReplyView,
    labels: Labels<Seq<char>>,
    reader: LineReader<Seq<char>>,
) -> Result<Seq<Seq<char>>, Seq<char>> {
    sql::all_rows(reply, labels, line_reader(reader))
}

/// Whether the reply is one that a query for these columns can get.
pub open spec fn reads(reply: sql::DbReplyView, columns: Seq<Column>) -> bool {
    &&& sql::answers_query(reply)
    &&& reply matches sql::DbReplyView::Rows { rows, .. } ==> sql::rows_fit(columns, rows)
}

/// Reads the lines of a query.
pub fn read_lines(reply: &DbReply, labels: &Labels<String>, reader: &LineReader<String>) -> (r:
    Result<Vec<String>, String>)
    requires
        reads(reply@, line_columns(reader@)),
    ensures
        match lines_of(reply@, labels@, reader@) {
            Ok(lines) => r is Ok && text::views(r->Ok_0@) == lines,
            Err(e) => r is Err && r->Err_0@ == e,
        },
{
    match reply {
        DbReply::PrepareFailed(e) => Err(text::concat2(labels.prepare.as_str(), e.as_str())),
        DbReply::RunFailed(e) => Err(text::concat2(labels.run.as_str(), e.as_str())),
        DbReply::Rows { rows, broken } => match collect_lines(rows, reader) {
            Ok(lines) => match broken {
                Some(e) => Err(text::concat2(labels.step.as_str(), e.as_str())),
                None => Ok(lines),
            },
            Err(e) => Err(e),
        },
        _ => {
            assert(false);
            Err(String::new())
        },
    }
}

/// What messages a query lists.
pub enum MessageReader<S> {
    /// Private ones, each with its recipient.
    Private,
    /// Those of one room. The room counts as their recipient.
    Room { name: S },
}

impl View for MessageReader<String> {
    type V = MessageReader<Seq<char>>;

    open spec fn view(&self) -> MessageReader<Seq<char>> {
        match self {
            MessageReader::Private => MessageReader::Private,
            MessageReader::Room { name } => MessageReader::Room { name: name@ },
        }
    }
}

/// The columns of which such a message is made.
pub open spec fn message_columns(reader: MessageReader<Seq<char>>) -> Seq<Column> {
    match reader {
        MessageReader::Private => seq![
            db::text_at(0),
            db::text_at(1),
            db::text_at(2),
            db::integer_at(3),
        ],
        MessageReader::Room { .. } => seq![db::text_at(0), db::text_at(1), db::integer_at(2)],
    }
}

/// The message of which these are the columns, or what is reported of the first
/// column that could not be read.
pub open spec fn message_from(
    sender: Result<Seq<char>, Seq<char>>,
    recipient: Result<Seq<char>, Seq<char>>,
    content: Result<Seq<char>, Seq<char>>,
    timestamp: Result<i64, Seq<char>>,
) -> Result<StoredMessage<Seq<char>>, Seq<char>> {
    match (sender, recipient, content, timestamp) {
        (Err(e), _, _, _) => Err(e),
        (_, Err(e), _, _) => Err(e),
        (_, _, Err(e), _) => Err(e),
        (_, _, _, Err(e)) => Err(e),
        (Ok(sender), Ok(recipient), Ok(content), Ok(timestamp)) => Ok(
            StoredMessage { sender, recipient, content, timestamp },
        ),
    }
}

/// The message that a row is read as.
pub open spec fn message_of(reader: MessageReader<Seq<char>>, row: Seq<Cell<Seq<char>>>) -> Result<
    StoredMessage<Seq<char>>,
    Seq<char>,
> {
    match reader {
        MessageReader::Private => message_from(
            sql::cell_text(row[0], "Ошибка чтения sender: "@),
            sql::cell_text(row[1], "Ошибка чтения recipient: "@),
            sql::cell_text(row[2], "Ошибка чтения content: "@),
            sql::cell_integer(row[3], "Ошибка чтения timestamp: "@),
        ),
        MessageReader::Room { name } => message_from(
            sql::cell_text(row[0], "Ошибка чтения sender: "@),
            Ok(name),
            sql::cell_text(row[1], "Ошибка чтения content: "@),
            sql::cell_integer(row[2], "Ошибка чтения timestamp: "@),
        ),
    }
}

/// Reading rows as messages.
pub open spec fn message_reader(reader: MessageReader<Seq<char>>) -> spec_fn(
    Seq<Cell<Seq<char>>>,
) -> Result<StoredMessage<Seq<char>>, Seq<char>> {
    |row: Seq<Cell<Seq<char>>>| message_of(reader, row)
}

fn read_message(reader: &MessageReader<String>, row: &Row) -> (r: Result<
    StoredMessage<String>,
    String,
>)
    requires
        sql::row_fits(message_columns(reader@), row@),
    ensures
        match message_of(reader@, row@) {
            Ok(m) => r is Ok && r->Ok_0@ == m,
            Err(e) => r is Err && r->Err_0@ == e,
        },
{
    assert(sql::cell_fits(sql::ColumnKind::Text, row@[0]));
    assert(sql::cell_fits(sql::ColumnKind::Text, row@[1]));
    let sender = match sql::read_text(&row.cells[0], "Ошибка чтения sender: ") {
        Ok(s) => s,
        Err(e) => return Err(e),
    };
    match reader {
        MessageReader::Private => {
            assert(sql::cell_fits(sql::ColumnKind::Text, row@[2]));
            assert(sql::cell_fits(sql::ColumnKind::Integer, row@[3]));
            let recipient = match sql::read_text(&row.cells[1], "Ошибка чтения recipient: ") {
                Ok(s) => s,
                Err(e) => return Err(e),
            };
            let content = match sql::read_text(&row.cells[2], "Ошибка чтения content: ") {
                Ok(s) => s,
                Err(e) => return Err(e),
            };
            match sql::read_integer(&row.cells[3], "Ошибка чтения timestamp: ") {
                Ok(timestamp) => Ok(StoredMessage { sender, recipient, content, timestamp }),
                Err(e) => Err(e),
            }
        },
        MessageReader::Room { name } => {
            assert(sql::cell_fits(sql::ColumnKind::Integer, row@[2]));
            let content = match sql::read_text(&row.cells[1], "Ошибка чтения content: ") {
                Ok(s) => s,
                Err(e) => return Err(e),
            };
            match sql::read_integer(&row.cells[2], "Ошибка чтения timestamp: ") {
                Ok(timestamp) => Ok(
                    StoredMessage { sender, recipient: name.clone(), content, timestamp },
                ),
                Err(e) => Err(e),
            }
        },
    }
}

fn collect_messages(rows: &Vec<Row>, reader: &MessageReader<String>) -> (r: Result<
    Vec<StoredMessage<String>>,
    String,
>)
    requires
        sql::rows_fit(message_columns(reader@), text::views(rows@)),
    ensures
        match sql::collected(text::views(rows@).map_values(message_reader(reader@))) {
            Ok(messages) => r is Ok && text::views(r->Ok_0@) == messages,
            Err(e) => r is Err && r->Err_0@ == e,
        },
{
    let ghost all: Seq<Seq<Cell<Seq<char>>>> = text::views(rows@);
    let ghost items = all.map_values(message_reader(reader@));
    let mut messages: Vec<StoredMessage<String>> = Vec::new();
    let mut i: usize = 0;
    assert(text::views(messages@) =~= Seq::<StoredMessage<Seq<char>>>::empty());
    assert(items.take(0) =~= Seq::<Result<StoredMessage<Seq<char>>, Seq<char>>>::empty());
    while i < rows.len()
        invariant
            i <= rows@.len(),
            all == text::views(rows@),
            sql::rows_fit(message_columns(reader@), all),
            items == all.map_values(message_reader(reader@)),
            sql::collected(items.take(i as int)) == Ok::<
                Seq<StoredMessage<Seq<char>>>,
                Seq<char>,
            >(text::views(messages@)),
        decreases rows@.len() - i,
    {
        assert(sql::row_fits(message_columns(reader@), all[i as int]));
        assert(items[i as int] == message_of(reader@, all[i as int]));
        assert(items.take(i + 1).drop_last() =~= items.take(i as int));
        assert(items.take(i + 1).last() == items[i as int]);
        match read_message(reader, &rows[i]) {
            Ok(message) => {
                messages.push(message);
            },
            Err(e) => {
                proof {
                    sql::lemma_collected_error(items, i + 1);
                }
                return Err(e);
            },
        }
        i = i + 1;
    }
    assert(items.take(items.len() as int) =~= items);
    Ok(messages)
}

/// The messages that a query lists.
pub open spec fn messages_of(
    reply: sql::DbReplyView,
    labels: Labels<Seq<char>>,
    reader: MessageReader<Seq<char>>,
) -> Result<Seq<StoredMessage<Seq<char>>>, Seq<char>> {
    sql::all_rows(reply, labels, message_reader(reader))
}

/// Reads the messages that a query lists.
pub fn read_messages(
    reply: &DbReply,
    labels: &Labels<String>,
    reader: &MessageReader<String>,
) -> (r: Result<Vec<StoredMessage<String>>, String>)
    requires
        reads(reply@, message_columns(reader@)),
    ensures
        match messages_of(reply@, labels@, reader@) {
            Ok(messages) => r is Ok && text::views(r->Ok_0@) == messages,
            Err(e) => r is Err && r->Err_0@ == e,
        },
{
    match reply {
        DbReply::PrepareFailed(e) => Err(text::concat2(labels.prepare.as_str(), e.as_str())),
        DbReply::RunFailed(e) => Err(text::concat2(labels.run.as_str(), e.as_str())),
        DbReply::Rows { rows, broken } => match collect_messages(rows, reader) {
            Ok(messages) => match broken {
                Some(e) => Err(text::concat2(labels.step.as_str(), e.as_str())),
                None => Ok(messages),
            },
            Err(e) => Err(e),
        },
        _ => {
            assert(false);
            Err(String::new())
        },
    }
}

/// Whether one of the rows names the column. Reading stops at the first one that
/// does, and what is wrong behind it goes unnoticed.
pub open spec fn names_column(
    rows: Seq<Seq<Cell<Seq<char>>>>,
    broken: Option<Seq<char>>,
    column: Seq<char>,
) -> Result<bool, Seq<char>>
    decreases rows.len(),
{
    if rows.len() == 0 {
        match broken {
            Some(e) => Err(e),
            None => Ok(false),
        }
    } else {
        match rows[0][0] {
            Cell::Text(name) => if name == column {
                Ok(true)
            } else {
                names_column(rows.skip(1), broken, column)
            },
            Cell::Failed(e) => Err(e),
            Cell::Integer(_) => arbitrary(),
        }
    }
}

/// Whether the table that was asked about has the column.
pub open spec fn column_of(reply: sql::DbReplyView, column: Seq<char>) -> Result<
    bool,
    Seq<char>,
> {
    match reply {
        sql::DbReplyView::PrepareFailed(e) => Err(e),
        sql::DbReplyView::RunFailed(e) => Err(e),
        sql::DbReplyView::Rows { rows, broken } => names_column(rows, broken, column),
        _ => arbitrary(),
    }
}

fn find_column(rows: &Vec<Row>, broken: &Option<String>, column: &str) -> (r: Result<bool, String>)
    requires
        sql::rows_fit(seq![db::text_at(1)], text::views(rows@)),
    ensures
        match names_column(text::views(rows@), text::option_text(*broken), column@) {
            Ok(b) => r == Ok::<bool, String>(b),
            Err(e) => r is Err && r->Err_0@ == e,
        },
{
    let ghost all: Seq<Seq<Cell<Seq<char>>>> = text::views(rows@);
    let ghost end = text::option_text(*broken);
    let mut i: usize = 0;
    assert(all.skip(0) =~= all);
    while i < rows.len()
        invariant
            i <= rows@.len(),
            all == text::views(rows@),
            end == text::option_text(*broken),
            sql::rows_fit(seq![db::text_at(1)], all),
            names_column(all, end, column@) == names_column(all.skip(i as int), end, column@),
        decreases rows@.len() - i,
    {
        assert(sql::row_fits(seq![db::text_at(1)], all[i as int]));
        assert(sql::cell_fits(sql::ColumnKind::Text, all[i as int][0]));
        assert(all.skip(i as int)[0] == all[i as int]);
        assert(all.skip(i as int).skip(1) =~= all.skip(i + 1));
        match &rows[i].cells[0] {
            Cell::Text(name) => {
                if text::same_text(name.as_str(), column) {
                    return Ok(true);
                }
            },
            Cell::Failed(e) => {
                return Err(e.clone());
            },
            Cell::Integer(_) => {
                assert(false);
            },
        }
        i = i + 1;
    }
    match broken {
        Some(e) => Err(e.clone()),
        None => Ok(false),
    }
}

/// Tells whether the table that was asked about has the column.
pub fn read_column(reply: &DbReply, column: &str) -> (r: Result<bool, String>)
    requires
        reads(reply@, seq![db::text_at(1)]),
    ensures
        match column_of(reply@, column@) {
            Ok(b) => r == Ok::<bool, String>(b),
            Err(e) => r is Err && r->Err_0@ == e,
        },
{
    match reply {
        DbReply::PrepareFailed(e) => Err(e.clone()),
        DbReply::RunFailed(e) => Err(e.clone()),
        DbReply::Rows { rows, broken } => find_column(rows, broken, column),
        _ => {
            assert(false);
            Ok(false)
        },
    }
}

} // verus!
