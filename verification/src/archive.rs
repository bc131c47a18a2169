//! Messages that are stored and then read, page by page.
//!
//! As in [`crate::tables`], each law takes the database as a function and says of it what
//! the law rests on.

use crate::db;
use crate::db::{DbCall, DbValue, Room, RoomAction, StoredMessage};
use crate::progress;
use crate::rows;
use crate::rows::MessageReader;
use crate::sql;
use crate::sql::Cell;
use crate::statements;
use crate::store;
use crate::tables;
use crate::tables::Database;
use vstd::multiset::Multiset;
use vstd::prelude::*;

verus! {

/// A message as it is read.
pub type MessageView = StoredMessage<Seq<char>>;

/// The last millisecond of the year 9999, up to which the database knows times.
pub const LAST_TIME: i64 = 253402300799999;

/// Whether the database can store the time.
pub open spec fn is_time(timestamp: i64) -> bool {
    0 <= timestamp <= LAST_TIME
}

/// The time as it is stored: to the second.
pub open spec fn to_the_second(timestamp: i64) -> i64 {
    (timestamp / 1000 * 1000) as i64
}

/// Whether the messages are in the order of their times.
pub open spec fn by_time(list: Seq<MessageView>) -> bool {
    forall|i: int, j: int|
        0 <= i < j < list.len() ==> (#[trigger] list[i]).timestamp <= (#[trigger] list[j]).timestamp
}

/// Whether the list holds the messages, in the order of their times. Where two have the
/// same time either comes first.
pub open spec fn is_listing(all: Multiset<MessageView>, list: Seq<MessageView>) -> bool {
    list.to_multiset() == all && by_time(list)
}

/// Whether no two of the messages are of the same second.
pub open spec fn seconds_differ(all: Multiset<MessageView>) -> bool {
    &&& forall|m: MessageView| #[trigger] all.count(m) <= 1
    &&& forall|a: MessageView, b: MessageView|
        #[trigger] all.contains(a) && #[trigger] all.contains(b) && a.timestamp == b.timestamp
            ==> a == b
}

/// The messages in the order of their times.
pub open spec fn listing(all: Multiset<MessageView>) -> Seq<MessageView> {
    choose|list: Seq<MessageView>| is_listing(all, list)
}

/// So many of the messages at most, without those before the first.
pub open spec fn page(list: Seq<MessageView>, limit: i64, offset: i64) -> Seq<MessageView> {
    let start = if offset < list.len() {
        offset as int
    } else {
        list.len() as int
    };
    let end = if start + limit < list.len() {
        start + limit
    } else {
        list.len() as int
    };
    list.subrange(start, end)
}

/// The columns of a message that are read.
pub open spec fn row_of(
    reader: MessageReader<Seq<char>>,
    message: MessageView,
) -> Seq<Cell<Seq<char>>> {
    match reader {
        MessageReader::Private => seq![
            Cell::Text(message.sender),
            Cell::Text(message.recipient),
            Cell::Text(message.content),
            Cell::Integer(message.timestamp),
        ],
        MessageReader::Room { .. } => seq![
            Cell::Text(message.sender),
            Cell::Text(message.content),
            Cell::Integer(message.timestamp),
        ],
    }
}

/// The rows of messages.
pub open spec fn rows_of(
    reader: MessageReader<Seq<char>>,
    list: Seq<MessageView>,
) -> sql::DbReplyView {
    sql::DbReplyView::Rows {
        rows: list.map_values(|m: MessageView| row_of(reader, m)),
        broken: None,
    }
}

/// Whether the reply holds the page of some list of the messages.
pub open spec fn gives_page(
    reader: MessageReader<Seq<char>>,
    all: Multiset<MessageView>,
    limit: i64,
    offset: i64,
    reply: sql::DbReplyView,
) -> bool {
    exists|list: Seq<MessageView>| #[trigger]
        is_listing(all, list) && reply == rows_of(reader, page(list, limit, offset))
}

/// The message as its reader sees it. In a room the room counts as the recipient.
pub open spec fn seen_by(
    reader: MessageReader<Seq<char>>,
    message: MessageView,
) -> MessageView {
    match reader {
        MessageReader::Private => message,
        MessageReader::Room { name } => StoredMessage { recipient: name, ..message },
    }
}

/// The messages as their reader sees them.
pub open spec fn all_seen_by(
    reader: MessageReader<Seq<char>>,
    list: Seq<MessageView>,
) -> Seq<MessageView> {
    list.map_values(|m: MessageView| seen_by(reader, m))
}

proof fn lemma_rows_are_read(reader: MessageReader<Seq<char>>, list: Seq<MessageView>)
    ensures
        rows::messages_of(rows_of(reader, list), progress::session_labels(), reader) == Ok::<
            Seq<MessageView>,
            Seq<char>,
        >(all_seen_by(reader, list)),
    decreases list.len(),
{
    let cells = list.map_values(|m: MessageView| row_of(reader, m));
    let items = cells.map_values(rows::message_reader(reader));
    let seen = all_seen_by(reader, list);
    if list.len() == 0 {
        assert(seen =~= Seq::<MessageView>::empty());
    } else {
        let before = list.drop_last();
        lemma_rows_are_read(reader, before);
        let cells_before = before.map_values(|m: MessageView| row_of(reader, m));
        assert(items.drop_last() =~= cells_before.map_values(rows::message_reader(reader)));
        assert(items.last() == rows::message_of(reader, row_of(reader, list.last())));
        assert(items.last() == Ok::<MessageView, Seq<char>>(seen_by(reader, list.last())));
        assert(seen =~= all_seen_by(reader, before).push(seen_by(reader, list.last())));
    }
}

proof fn lemma_strict(all: Multiset<MessageView>, list: Seq<MessageView>)
    requires
        seconds_differ(all),
        is_listing(all, list),
    ensures
        forall|i: int, j: int|
            0 <= i < j < list.len() ==> (#[trigger] list[i]).timestamp < (
            #[trigger] list[j]).timestamp,
{
    list.to_multiset_ensures();
    assert forall|x: MessageView| list.to_multiset().contains(x) implies list.to_multiset().count(x)
        == 1 by {
        assert(all.count(x) <= 1);
    }
    list.lemma_multiset_has_no_duplicates_conv();
    assert forall|i: int, j: int| 0 <= i < j < list.len() implies (#[trigger] list[i]).timestamp < (
    #[trigger] list[j]).timestamp by {
        if list[i].timestamp == list[j].timestamp {
            assert(list.contains(list[i]) && list.contains(list[j]));
            assert(all.contains(list[i]) && all.contains(list[j]));
            assert(list[i] == list[j]);
        }
    }
}

/// Two lists of the same messages, of which no two are of the same second, are the same.
proof fn lemma_one_listing(
    all: Multiset<MessageView>,
    a: Seq<MessageView>,
    b: Seq<MessageView>,
)
    requires
        seconds_differ(all),
        is_listing(all, a),
        is_listing(all, b),
    ensures
        a == b,
    decreases a.len(),
{
    broadcast use vstd::multiset::group_multiset_axioms;

    a.to_multiset_ensures();
    b.to_multiset_ensures();
    assert(a.len() == b.len());
    if a.len() == 0 {
        assert(a =~= b);
    } else {
        lemma_strict(all, a);
        lemma_strict(all, b);
        let n = a.len() - 1;
        assert(b.contains(a[n])) by {
            assert(a.contains(a[n]));
            assert(all.count(a[n]) > 0);
        }
        let j = choose|j: int| 0 <= j < b.len() && b[j] == a[n];
        assert(a.contains(b[n])) by {
            assert(b.contains(b[n]));
            assert(all.count(b[n]) > 0);
        }
        let i = choose|i: int| 0 <= i < a.len() && a[i] == b[n];
        assert(a[n] == b[n]) by {
            if j < n {
                assert(b[j].timestamp < b[n].timestamp);
                assert(a[i].timestamp <= a[n].timestamp);
            }
        }
        let rest = all.remove(a[n]);
        assert(a.remove(n) =~= a.drop_last());
        assert(b.remove(n) =~= b.drop_last());
        assert(a.drop_last().to_multiset() =~= rest);
        assert(b.drop_last().to_multiset() =~= rest);
        assert(seconds_differ(rest)) by {
            assert forall|m: MessageView| #[trigger] rest.count(m) <= 1 by {
                assert(all.count(m) <= 1);
            }
            assert forall|x: MessageView, y: MessageView|
                #[trigger] rest.contains(x) && #[trigger] rest.contains(y) && x.timestamp
                    == y.timestamp implies x == y by {
                assert(all.contains(x) && all.contains(y));
            }
        }
        lemma_one_listing(rest, a.drop_last(), b.drop_last());
        assert(a =~= a.drop_last().push(a[n]));
        assert(b =~= b.drop_last().push(b[n]));
    }
}

/// Adjacent pages neither overlap nor leave a gap.
pub proof fn law_adjacent_pages(list: Seq<MessageView>, a: i64, b: i64)
    requires
        0 <= a,
        0 <= b,
        a + b <= i64::MAX,
    ensures
        page(list, a, 0) + page(list, b, a) == page(list, (a + b) as i64, 0),
{
    assert(page(list, a, 0) + page(list, b, a) =~= page(list, (a + b) as i64, 0));
}

/// The private messages, as they are read, and the identifiers that are in use.
pub struct Messages {
    pub ids: Set<Seq<char>>,
    pub messages: Multiset<MessageView>,
}

/// The messages that the user has sent or got.
pub open spec fn of_user(t: Messages, username: Seq<char>) -> Multiset<MessageView> {
    t.messages.filter(|m: MessageView| m.sender == username || m.recipient == username)
}

/// With one more message.
pub open spec fn with_message(t: Messages, id: Seq<char>, message: MessageView) -> Messages {
    Messages { ids: t.ids.insert(id), messages: t.messages.insert(message) }
}

/// Whether the database stores messages as given, to the second, under identifiers that
/// are new, and lists those of a user by their times, page by page.
pub open spec fn keeps_messages(database: Database<Messages>) -> bool {
    &&& forall|t: Messages, id: Seq<char>, message: MessageView|
        #![trigger database(
            t,
            store::message_of(
                id,
                message.sender,
                message.recipient,
                message.content,
                message.timestamp,
            ).request,
        )]
        !t.ids.contains(id) && is_time(message.timestamp) ==> database(
            t,
            store::message_of(
                id,
                message.sender,
                message.recipient,
                message.content,
                message.timestamp,
            ).request,
        ) == (with_message(t, id, stored(message)), sql::DbReplyView::Done)
    &&& forall|t: Messages, username: Seq<char>, limit: i64, offset: i64|
        #![trigger database(t, page_request(username, limit, offset))]
        limit >= 0 && offset >= 0 ==> {
            let (after, reply) = database(t, page_request(username, limit, offset));
            after == t && gives_page(
                MessageReader::Private,
                of_user(t, username),
                limit,
                offset,
                reply,
            )
        }
}

/// The message as it is read once it has been stored.
pub open spec fn stored(message: MessageView) -> MessageView {
    StoredMessage { timestamp: to_the_second(message.timestamp), ..message }
}

/// The request for a page of a user's messages.
pub open spec fn page_request(username: Seq<char>, limit: i64, offset: i64) -> sql::DbRequestView {
    store::plain_task(DbCall::GetUserMessages { username, limit, offset }).request
}

/// The messages of a user are read as they were stored: some list of all of them, in the
/// order of their times, or the page of it that was asked for.
pub proof fn law_user_messages(
    database: Database<Messages>,
    t: Messages,
    username: Seq<char>,
    limit: i64,
    offset: i64,
)
    requires
        keeps_messages(database),
        limit >= 0,
        offset >= 0,
    ensures
        exists|list: Seq<MessageView>| #[trigger]
            is_listing(of_user(t, username), list) && tables::operate(
                database,
                DbCall::GetUserMessages { username, limit, offset },
                t,
            ) == (t, progress::done(DbValue::Messages(page(list, limit, offset)))),
{
    reveal_with_fuel(tables::run, 4);
    let (after, reply) = database(t, page_request(username, limit, offset));
    let all = of_user(t, username);
    let list = choose|list: Seq<MessageView>| #[trigger]
        is_listing(all, list) && reply == rows_of(
            MessageReader::Private,
            page(list, limit, offset),
        );
    let wanted = page(list, limit, offset);
    lemma_rows_are_read(MessageReader::Private, wanted);
    assert(all_seen_by(MessageReader::Private, wanted) =~= wanted);
    assert(is_listing(all, list));
}

/// A private message that was stored is read back, by its sender and by its recipient:
/// as it was given, its time to the second. What they read besides is what they had.
pub proof fn law_message_is_read_back(
    database: Database<Messages>,
    t: Messages,
    id: Seq<char>,
    message: MessageView,
    username: Seq<char>,
    limit: i64,
)
    requires
        keeps_messages(database),
        !t.ids.contains(id),
        is_time(message.timestamp),
        username == message.sender || username == message.recipient,
        limit > of_user(t, username).len(),
    ensures
        ({
            let task = store::message_of(
                id,
                message.sender,
                message.recipient,
                message.content,
                message.timestamp,
            );
            let after = with_message(t, id, stored(message));
            let read = DbCall::GetUserMessages { username, limit, offset: 0 };
            &&& tables::run(database, db::StepView::Ask(task), t, 1) == (
                after,
                progress::done(DbValue::Unit),
            )
            &&& exists|list: Seq<MessageView>|
                {
                    &&& #[trigger] by_time(list)
                    &&& list.contains(stored(message))
                    &&& list.to_multiset() == of_user(t, username).insert(stored(message))
                    &&& tables::operate(database, read, after) == (
                        after,
                        progress::done(DbValue::Messages(list)),
                    )
                }
        }),
{
    broadcast use vstd::multiset::group_multiset_axioms;

    reveal_with_fuel(tables::run, 2);
    let task = store::message_of(
        id,
        message.sender,
        message.recipient,
        message.content,
        message.timestamp,
    );
    let after = with_message(t, id, stored(message));
    assert(database(t, task.request) == (after, sql::DbReplyView::Done));
    law_user_messages(database, after, username, limit, 0);
    let all = of_user(after, username);
    let list = choose|list: Seq<MessageView>| #[trigger]
        is_listing(all, list) && tables::operate(
            database,
            DbCall::GetUserMessages { username, limit, offset: 0 },
            after,
        ) == (after, progress::done(DbValue::Messages(page(list, limit, 0))));
    assert(all =~= of_user(t, username).insert(stored(message)));
    list.to_multiset_ensures();
    assert(all.count(stored(message)) > 0);
    assert(page(list, limit, 0) =~= list);
    assert(by_time(list));
}

/// Where no two messages of a user are of the same second, the pages of a user's messages
/// are pages of one list.
pub proof fn law_user_page(
    database: Database<Messages>,
    t: Messages,
    username: Seq<char>,
    limit: i64,
    offset: i64,
)
    requires
        keeps_messages(database),
        limit >= 0,
        offset >= 0,
        seconds_differ(of_user(t, username)),
    ensures
        tables::operate(database, DbCall::GetUserMessages { username, limit, offset }, t) == (
            t,
            progress::done(
                DbValue::Messages(page(listing(of_user(t, username)), limit, offset)),
            ),
        ),
        is_listing(of_user(t, username), listing(of_user(t, username))),
{
    law_user_messages(database, t, username, limit, offset);
    let all = of_user(t, username);
    let list = choose|list: Seq<MessageView>| #[trigger]
        is_listing(all, list) && tables::operate(
            database,
            DbCall::GetUserMessages { username, limit, offset },
            t,
        ) == (t, progress::done(DbValue::Messages(page(list, limit, offset))));
    lemma_one_listing(all, list, listing(all));
}

/// The messages that an operation gave.
pub open spec fn messages_in(step: db::StepView) -> Seq<MessageView> {
    match step {
        db::StepView::Done(Ok(DbValue::Messages(messages))) => messages,
        _ => arbitrary(),
    }
}

/// Adjacent pages of a user's messages, read one after the other, are the page that spans
/// both: none is read twice and none is left out.
pub proof fn law_user_pages(
    database: Database<Messages>,
    t: Messages,
    username: Seq<char>,
    a: i64,
    b: i64,
)
    requires
        keeps_messages(database),
        0 <= a,
        0 <= b,
        a + b <= i64::MAX,
        seconds_differ(of_user(t, username)),
    ensures
        ({
            let first = tables::operate(
                database,
                DbCall::GetUserMessages { username, limit: a, offset: 0 },
                t,
            );
            let second = tables::operate(
                database,
                DbCall::GetUserMessages { username, limit: b, offset: a },
                first.0,
            );
            let both = tables::operate(
                database,
                DbCall::GetUserMessages { username, limit: (a + b) as i64, offset: 0 },
                t,
            );
            both == (
                t,
                progress::done(
                    DbValue::Messages(messages_in(first.1) + messages_in(second.1)),
                ),
            )
        }),
{
    law_user_page(database, t, username, a, 0);
    law_user_page(database, t, username, b, a);
    law_user_page(database, t, username, (a + b) as i64, 0);
    law_adjacent_pages(listing(of_user(t, username)), a, b);
}

/// The messages in groups, or in channels: the identifier of each room, the identifiers
/// that messages have, and the messages, each with its room's identifier as recipient.
pub struct RoomMessages {
    pub rooms: Map<Seq<char>, Seq<char>>,
    pub ids: Set<Seq<char>>,
    pub messages: Multiset<MessageView>,
}

/// The messages of the room that has the name.
pub open spec fn of_room(t: RoomMessages, name: Seq<char>) -> Multiset<MessageView> {
    if t.rooms.contains_key(name) {
        t.messages.filter(|m: MessageView| m.recipient == t.rooms[name])
    } else {
        Multiset::empty()
    }
}

/// With one more message.
pub open spec fn with_room_message(
    t: RoomMessages,
    id: Seq<char>,
    message: MessageView,
) -> RoomMessages {
    RoomMessages { ids: t.ids.insert(id), messages: t.messages.insert(message), ..t }
}

/// What is done with a room in order to store the message.
pub open spec fn storing(id: Seq<char>, message: MessageView) -> RoomAction<Seq<char>> {
    RoomAction::Store {
        message_id: id,
        sender: message.sender,
        content: message.content,
        timestamp: message.timestamp,
    }
}

/// The request for a page of a room's messages.
pub open spec fn room_page_request(
    room: Room,
    name: Seq<char>,
    limit: i64,
    offset: i64,
) -> sql::DbRequestView {
    store::plain_task(DbCall::GetRoomMessages { room, name, limit, offset }).request
}

/// The reply to the look-up of a room.
pub open spec fn room_row(t: RoomMessages, name: Seq<char>) -> sql::DbReplyView {
    tables::found(
        if t.rooms.contains_key(name) {
            Some(seq![Cell::Text(t.rooms[name])])
        } else {
            None
        },
    )
}

/// Whether the database looks rooms up by their names, stores their messages as given, to
/// the second, under identifiers that are new, and lists those of a room by their times,
/// page by page.
pub open spec fn keeps_room_messages(database: Database<RoomMessages>, room: Room) -> bool {
    &&& forall|t: RoomMessages, name: Seq<char>, action: RoomAction<Seq<char>>|
        #![trigger database(t, store::find_room_of(room, name, action).request)]
        database(t, store::find_room_of(room, name, action).request) == (t, room_row(t, name))
    &&& forall|t: RoomMessages, name: Seq<char>, id: Seq<char>, message: MessageView|
        #![trigger t.rooms.contains_key(name), storing(id, message)]
        t.rooms.contains_key(name) && message.recipient == t.rooms[name] && !t.ids.contains(id)
            && is_time(message.timestamp) ==> database(
            t,
            progress::room_statement(room, t.rooms[name], storing(id, message)).request,
        ) == (with_room_message(t, id, stored(message)), sql::DbReplyView::Done)
    &&& forall|t: RoomMessages, name: Seq<char>, limit: i64, offset: i64|
        #![trigger database(t, room_page_request(room, name, limit, offset))]
        limit >= 0 && offset >= 0 ==> {
            let (after, reply) = database(t, room_page_request(room, name, limit, offset));
            after == t && gives_page(
                MessageReader::Room { name },
                of_room(t, name),
                limit,
                offset,
                reply,
            )
        }
}

/// The messages of a room as they are read.
pub open spec fn in_room(name: Seq<char>, list: Seq<MessageView>) -> Seq<MessageView> {
    all_seen_by(MessageReader::Room { name }, list)
}

/// The messages of a room are read as they were stored: some list of all of them, in the
/// order of their times, or the page of it that was asked for.
pub proof fn law_messages_of_room(
    database: Database<RoomMessages>,
    room: Room,
    t: RoomMessages,
    name: Seq<char>,
    limit: i64,
    offset: i64,
)
    requires
        keeps_room_messages(database, room),
        limit >= 0,
        offset >= 0,
    ensures
        exists|list: Seq<MessageView>| #[trigger]
            is_listing(of_room(t, name), list) && tables::operate(
                database,
                DbCall::GetRoomMessages { room, name, limit, offset },
                t,
            ) == (
                t,
                progress::done(DbValue::Messages(in_room(name, page(list, limit, offset)))),
            ),
{
    reveal_with_fuel(tables::run, 4);
    let (after, reply) = database(t, room_page_request(room, name, limit, offset));
    let reader = MessageReader::Room { name };
    let all = of_room(t, name);
    let list = choose|list: Seq<MessageView>| #[trigger]
        is_listing(all, list) && reply == rows_of(reader, page(list, limit, offset));
    lemma_rows_are_read(reader, page(list, limit, offset));
    assert(is_listing(all, list));
}

/// A message that was stored in a room is read back: as it was given, its time to the
/// second. What the room has besides is what it had. Where there is no such room it is
/// refused, and nothing changes.
pub proof fn law_room_message_is_read_back(
    database: Database<RoomMessages>,
    room: Room,
    t: RoomMessages,
    name: Seq<char>,
    id: Seq<char>,
    sender: Seq<char>,
    content: Seq<char>,
    timestamp: i64,
    limit: i64,
)
    requires
        keeps_room_messages(database, room),
        !t.ids.contains(id),
        is_time(timestamp),
        limit > of_room(t, name).len(),
    ensures
        ({
            let call = DbCall::StoreRoomMessage { room, name, sender, content, timestamp };
            let step = db::StepView::Ask(store::task_of(call, id));
            let read = DbCall::GetRoomMessages { room, name, limit, offset: 0 };
            if t.rooms.contains_key(name) {
                let recipient = t.rooms[name];
                let message = stored(StoredMessage { sender, recipient, content, timestamp });
                let after = with_room_message(t, id, message);
                &&& tables::run(database, step, t, 2) == (after, progress::done(DbValue::Unit))
                &&& exists|list: Seq<MessageView>|
                    {
                        &&& #[trigger] by_time(list)
                        &&& list.contains(message)
                        &&& list.to_multiset() == of_room(t, name).insert(message)
                        &&& tables::operate(database, read, after) == (
                            after,
                            progress::done(DbValue::Messages(in_room(name, list))),
                        )
                    }
            } else {
                tables::run(database, step, t, 2) == (
                    t,
                    progress::failed(statements::room_texts_of(room).not_found),
                )
            }
        }),
{
    broadcast use vstd::multiset::group_multiset_axioms;

    reveal_with_fuel(tables::run, 3);
    let call = DbCall::StoreRoomMessage { room, name, sender, content, timestamp };
    let task = store::task_of(call, id);
    let action = RoomAction::Store { message_id: id, sender, content, timestamp };
    assert(task == store::find_room_of(room, name, action));
    assert(database(t, task.request) == (t, room_row(t, name)));
    if t.rooms.contains_key(name) {
        let recipient = t.rooms[name];
        let given = StoredMessage { sender, recipient, content, timestamp };
        let message = stored(given);
        let after = with_room_message(t, id, message);
        assert(storing(id, given) == action);
        let next = progress::room_statement(room, recipient, action);
        assert(progress::resumed(task.op, room_row(t, name)) == db::StepView::Ask(next));
        assert(database(t, next.request) == (after, sql::DbReplyView::Done));
        law_messages_of_room(database, room, after, name, limit, 0);
        let all = of_room(after, name);
        let list = choose|list: Seq<MessageView>| #[trigger]
            is_listing(all, list) && tables::operate(
                database,
                DbCall::GetRoomMessages { room, name, limit, offset: 0 },
                after,
            ) == (
                after,
                progress::done(DbValue::Messages(in_room(name, page(list, limit, 0)))),
            );
        assert(all =~= of_room(t, name).insert(message));
        list.to_multiset_ensures();
        assert(all.count(message) > 0);
        assert(page(list, limit, 0) =~= list);
        assert(by_time(list));
    }
}

/// Where no two messages of a room are of the same second, the pages of its messages are
/// pages of one list.
pub proof fn law_room_page(
    database: Database<RoomMessages>,
    room: Room,
    t: RoomMessages,
    name: Seq<char>,
    limit: i64,
    offset: i64,
)
    requires
        keeps_room_messages(database, room),
        limit >= 0,
        offset >= 0,
        seconds_differ(of_room(t, name)),
    ensures
        tables::operate(database, DbCall::GetRoomMessages { room, name, limit, offset }, t) == (
            t,
            progress::done(
                DbValue::Messages(in_room(name, page(listing(of_room(t, name)), limit, offset))),
            ),
        ),
        is_listing(of_room(t, name), listing(of_room(t, name))),
{
    law_messages_of_room(database, room, t, name, limit, offset);
    let all = of_room(t, name);
    let list = choose|list: Seq<MessageView>| #[trigger]
        is_listing(all, list) && tables::operate(
            database,
            DbCall::GetRoomMessages { room, name, limit, offset },
            t,
        ) == (t, progress::done(DbValue::Messages(in_room(name, page(list, limit, offset)))));
    lemma_one_listing(all, list, listing(all));
}

/// Adjacent pages of a room's messages, read one after the other, are the page that spans
/// both: none is read twice and none is left out.
pub proof fn law_room_pages(
    database: Database<RoomMessages>,
    room: Room,
    t: RoomMessages,
    name: Seq<char>,
    a: i64,
    b: i64,
)
    requires
        keeps_room_messages(database, room),
        0 <= a,
        0 <= b,
        a + b <= i64::MAX,
        seconds_differ(of_room(t, name)),
    ensures
        ({
            let first = tables::operate(
                database,
                DbCall::GetRoomMessages { room, name, limit: a, offset: 0 },
                t,
            );
            let second = tables::operate(
                database,
                DbCall::GetRoomMessages { room, name, limit: b, offset: a },
                first.0,
            );
            let both = tables::operate(
                database,
                DbCall::GetRoomMessages { room, name, limit: (a + b) as i64, offset: 0 },
                t,
            );
            both == (
                t,
                progress::done(
                    DbValue::Messages(messages_in(first.1) + messages_in(second.1)),
                ),
            )
        }),
{
    law_room_page(database, room, t, name, a, 0);
    law_room_page(database, room, t, name, b, a);
    law_room_page(database, room, t, name, (a + b) as i64, 0);
    let list = listing(of_room(t, name));
    law_adjacent_pages(list, a, b);
    assert(in_room(name, page(list, a, 0)) + in_room(name, page(list, b, a)) =~= in_room(
        name,
        page(list, a, 0) + page(list, b, a),
    ));
}

} // verus!
