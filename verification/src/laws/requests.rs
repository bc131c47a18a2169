//! What the operations on the database ask of it, and what they make of its replies.

use crate::db;
use crate::db::{DbCall, DbOp, DbValue, Profile, Room, StoredMessage};
use crate::identity;
use crate::progress;
use crate::rows;
use crate::rows::{LineReader, MessageReader};
use crate::sql;
use crate::sql::{Cell, Column, ColumnKind, DbReplyView, DbRequestView, SqlValue};
use crate::statements;
use crate::store;
use vstd::prelude::*;

verus! {

/// Whether the task is to execute the statement with these values.
pub open spec fn executes(
    task: db::TaskView,
    sql: Seq<char>,
    params: Seq<SqlValue<Seq<char>>>,
) -> bool {
    task.request == DbRequestView::Execute { sql, params }
}

/// Whether the task is to run the query with these values, and to read the columns of all
/// its rows, or of the first one.
pub open spec fn queries(
    task: db::TaskView,
    sql: Seq<char>,
    params: Seq<SqlValue<Seq<char>>>,
    columns: Seq<Column>,
    first_only: bool,
) -> bool {
    task.request == DbRequestView::Query { sql, params, columns, first_only }
}

/// A column that is read as a text.
pub open spec fn text_column(index: usize) -> Column {
    Column { index, kind: ColumnKind::Text }
}

/// A column that is read as a number.
pub open spec fn number_column(index: usize) -> Column {
    Column { index, kind: ColumnKind::Integer }
}

/// Whether the operation ends with the statement: with the value where it was carried out,
/// and else with the database's words behind the label.
pub open spec fn ends(task: db::TaskView, value: db::AnswerView, label: Seq<char>) -> bool {
    &&& progress::resumed(task.op, DbReplyView::Done) == db::StepView::Done(Ok(value))
    &&& forall|e: Seq<char>| #[trigger]
        progress::resumed(task.op, DbReplyView::Failed(e)) == db::StepView::Done(Err(label + e))
}

/// Whether the operation ends with the database's words, behind a label for each way in
/// which the query can fail.
pub open spec fn reports(
    task: db::TaskView,
    prepare: Seq<char>,
    run: Seq<char>,
    step: Seq<char>,
) -> bool {
    &&& forall|e: Seq<char>| #[trigger]
        progress::resumed(task.op, DbReplyView::PrepareFailed(e)) == db::StepView::Done(
            Err(prepare + e),
        )
    &&& forall|e: Seq<char>| #[trigger]
        progress::resumed(task.op, DbReplyView::RunFailed(e)) == db::StepView::Done(Err(run + e))
    &&& forall|e: Seq<char>| #[trigger]
        progress::resumed(
            task.op,
            DbReplyView::Rows { rows: Seq::empty(), broken: Some(e) },
        ) == db::StepView::Done(Err(step + e))
}

/// A reply without rows.
pub open spec fn no_rows() -> DbReplyView {
    DbReplyView::Rows { rows: Seq::empty(), broken: None }
}

/// A reply with one row.
pub open spec fn one_row(row: Seq<Cell<Seq<char>>>) -> DbReplyView {
    DbReplyView::Rows { rows: seq![row], broken: None }
}

/// Whether the operation says whether the query has a row.
pub open spec fn tells_whether(task: db::TaskView) -> bool {
    &&& progress::resumed(task.op, no_rows()) == db::StepView::Done(Ok(DbValue::Flag(false)))
    &&& forall|row: Seq<Cell<Seq<char>>>| #[trigger]
        progress::resumed(task.op, one_row(row)) == db::StepView::Done(Ok(DbValue::Flag(true)))
}

/// Whether the operation ends with the database's words behind the label, where the one
/// column of a row cannot be read.
pub open spec fn reports_cell(task: db::TaskView, label: Seq<char>) -> bool {
    forall|e: Seq<char>| #[trigger]
        progress::resumed(task.op, one_row(seq![Cell::Failed(e)])) == db::StepView::Done(
            Err(label + e),
        )
}

/// A reply with a row for each of the names.
pub open spec fn rows_of_names(names: Seq<Seq<char>>) -> DbReplyView {
    DbReplyView::Rows {
        rows: Seq::new(names.len(), |i: int| seq![Cell::Text(names[i])]),
        broken: None,
    }
}

/// Whether the operation lists what the query lists, one for one.
pub open spec fn lists_names(task: db::TaskView) -> bool {
    forall|names: Seq<Seq<char>>| #[trigger]
        progress::resumed(task.op, rows_of_names(names)) == db::StepView::Done(
            Ok(DbValue::Names(names)),
        )
}

/// The one of two texts that is for rooms of this sort.
pub open spec fn of_sort(room: Room, group: Seq<char>, channel: Seq<char>) -> Seq<char> {
    match room {
        Room::Group => group,
        Room::Channel => channel,
    }
}

/// The name that is given, or the empty one.
pub open spec fn given(name: Option<Seq<char>>) -> Seq<char> {
    if name is Some {
        name->Some_0
    } else {
        Seq::empty()
    }
}

/// The name that a user is shown by: first and last name, the first name alone, or else the
/// user name.
pub open spec fn shown_by(
    username: Seq<char>,
    first_name: Option<Seq<char>>,
    last_name: Option<Seq<char>>,
) -> Seq<char> {
    if first_name is Some && last_name is Some {
        first_name->Some_0 + " "@ + last_name->Some_0
    } else if first_name is Some {
        first_name->Some_0
    } else {
        username
    }
}

/// A new user is put in with the identifier, the names, the phone number and the hash as
/// given. A first or last name that is not given is empty. The identifier comes out. Where
/// the password could not be hashed nothing is put in.
pub proof fn law_registration(
    user_id: Seq<char>,
    username: Seq<char>,
    phone: Seq<char>,
    hash: Seq<char>,
    first_name: Option<Seq<char>>,
    last_name: Option<Seq<char>>,
    e: Seq<char>,
)
    ensures
        store::register_step(user_id, username, phone, Err(e), first_name, last_name)
            == db::StepView::Done(Err("Ошибка хеширования: "@ + e)),
        store::register_step(user_id, username, phone, Ok(hash), first_name, last_name) is Ask,
        ({
            let task = store::register_step(
                user_id,
                username,
                phone,
                Ok(hash),
                first_name,
                last_name,
            )->Ask_0;
            &&& executes(
                task,
                "INSERT INTO users (id, username, phone, password_hash, first_name, last_name, display_name) VALUES (?, ?, ?, ?, ?, ?, ?)"@,
                seq![
                    SqlValue::Text(user_id),
                    SqlValue::Text(username),
                    SqlValue::Text(phone),
                    SqlValue::Text(hash),
                    SqlValue::Text(given(first_name)),
                    SqlValue::Text(given(last_name)),
                    SqlValue::Text(shown_by(username, first_name, last_name)),
                ],
            )
            &&& ends(task, DbValue::Text(user_id), "Ошибка регистрации: "@)
        }),
{
    assert(store::text_or_empty(first_name) == given(first_name));
    assert(store::text_or_empty(last_name) == given(last_name));
    assert(rows::shown_name(username, first_name, last_name) == shown_by(
        username,
        first_name,
        last_name,
    ));
}

/// A login looks the phone number up. The account whose hash fits the password is let in,
/// and everybody else is refused: the unknown and those with a wrong password alike.
pub proof fn law_login_request(
    phone: Seq<char>,
    password: Seq<char>,
    user_id: Seq<char>,
    hash: Seq<char>,
    id: Seq<char>,
)
    ensures
        ({
            let task = store::task_of(DbCall::LoginUserByPhone { phone, password }, id);
            let refusal = db::StepView::Done(Err("Неверный телефон или пароль"@));
            let found = seq![Cell::Text(user_id), Cell::Text(hash)];
            &&& queries(
                task,
                "SELECT id, password_hash FROM users WHERE phone = ?"@,
                seq![SqlValue::Text(phone)],
                seq![text_column(0), text_column(1)],
                true,
            )
            &&& reports(task, "Ошибка запроса: "@, "Ошибка выполнения: "@, "Ошибка чтения: "@)
            &&& progress::resumed(task.op, no_rows()) == refusal
            &&& progress::resumed(task.op, one_row(found)) == match identity::bcrypt_verification(
                password,
                hash,
            ) {
                Ok(true) => db::StepView::Done(Ok(DbValue::Text(user_id))),
                Ok(false) => refusal,
                Err(e) => db::StepView::Done(Err("Ошибка проверки пароля: "@ + e)),
            }
        }),
{
}

/// The name of a user is looked up by the identifier.
pub proof fn law_username_request(user_id: Seq<char>, username: Seq<char>, id: Seq<char>)
    ensures
        ({
            let task = store::task_of(DbCall::UsernameById { user_id }, id);
            let none = Seq::<char>::empty();
            &&& queries(
                task,
                "SELECT username FROM users WHERE id = ?"@,
                seq![SqlValue::Text(user_id)],
                seq![text_column(0)],
                true,
            )
            &&& reports(task, none, none, none)
            &&& reports_cell(task, none)
            &&& progress::resumed(task.op, no_rows()) == db::StepView::Done(
                Err("Пользователь не найден"@),
            )
            &&& progress::resumed(task.op, one_row(seq![Cell::Text(username)]))
                == db::StepView::Done(Ok(DbValue::Text(username)))
        }),
{
}

/// A session is put in for the user and the device under its token, which comes out.
/// A token is looked up, marked as just used, and gives the user's account; an unknown
/// token is refused. A session is deleted by its token.
pub proof fn law_session_requests(
    token: Seq<char>,
    user_id: Seq<char>,
    username: Seq<char>,
    device_name: Seq<char>,
    id: Seq<char>,
)
    ensures
        ({
            let open = store::task_of(DbCall::CreateSession { user_id, device_name }, token);
            let check = store::task_of(DbCall::CheckSession { token }, id);
            let delete = store::task_of(DbCall::DeleteSession { token }, id);
            let found = seq![Cell::Text(user_id), Cell::Text(username)];
            &&& executes(
                open,
                "INSERT INTO sessions (token, user_id, device_name, last_seen) VALUES (?, ?, ?, CURRENT_TIMESTAMP)"@,
                seq![
                    SqlValue::Text(token),
                    SqlValue::Text(user_id),
                    SqlValue::Text(device_name),
                ],
            )
            &&& ends(open, DbValue::Text(token), "Ошибка создания сессии: "@)
            &&& queries(
                check,
                "SELECT user_id, username FROM sessions JOIN users ON sessions.user_id = users.id WHERE sessions.token = ?"@,
                seq![SqlValue::Text(token)],
                seq![text_column(0), text_column(1)],
                true,
            )
            &&& reports(
                check,
                "Ошибка подготовки: "@,
                "Ошибка выполнения: "@,
                "Ошибка чтения: "@,
            )
            &&& progress::resumed(check.op, no_rows()) == db::StepView::Done(
                Err("Недействительный токен"@),
            )
            &&& progress::resumed(check.op, one_row(found)) matches db::StepView::Ask(touch)
            &&& executes(touch, "UPDATE sessions SET last_seen = CURRENT_TIMESTAMP WHERE token = ?"@, seq![SqlValue::Text(token)])
            &&& ends(
                touch,
                DbValue::Account { user_id, username },
                "Ошибка обновления last_seen: "@,
            )
            &&& executes(delete, "DELETE FROM sessions WHERE token = ?"@, seq![SqlValue::Text(token)])
            &&& ends(delete, DbValue::Unit, "Ошибка удаления сессии: "@)
        }),
{
}

/// Whether there is a user of a name is asked for that name.
pub proof fn law_user_exists_request(username: Seq<char>, id: Seq<char>)
    ensures
        ({
            let task = store::task_of(DbCall::UserExists { username }, id);
            &&& queries(
                task,
                "SELECT 1 FROM users WHERE username = ?"@,
                seq![SqlValue::Text(username)],
                Seq::empty(),
                true,
            )
            &&& reports(task, "Ошибка запроса: "@, "Ошибка выполнения: "@, "Ошибка чтения: "@)
            &&& tells_whether(task)
        }),
{
}

/// A push token is kept for the user and the device. The push tokens of a user are listed
/// by the user's name.
pub proof fn law_push_token_requests(
    user_id: Seq<char>,
    token: Seq<char>,
    device_name: Seq<char>,
    username: Seq<char>,
    id: Seq<char>,
)
    ensures
        ({
            let save = store::task_of(DbCall::SaveFcmToken { user_id, token, device_name }, id);
            let list = store::task_of(DbCall::GetFcmTokens { username }, id);
            &&& executes(
                save,
                "INSERT OR REPLACE INTO fcm_tokens (user_id, token, device_name) VALUES (?, ?, ?)"@,
                seq![
                    SqlValue::Text(user_id),
                    SqlValue::Text(token),
                    SqlValue::Text(device_name),
                ],
            )
            &&& ends(save, DbValue::Unit, "Ошибка сохранения FCM-токена: "@)
            &&& queries(
                list,
                "SELECT token FROM fcm_tokens WHERE user_id = (SELECT id FROM users WHERE username = ?)"@,
                seq![SqlValue::Text(username)],
                seq![text_column(0)],
                false,
            )
            &&& reports(
                list,
                "Ошибка запроса FCM: "@,
                "Ошибка выполнения: "@,
                "Ошибка чтения: "@,
            )
            &&& lists_names(list)
            &&& reports_cell(list, "Ошибка чтения токена: "@)
        }),
{
    lemma_no_items();
    lemma_names();
    lemma_bad_cell();
}

/// A private message is put in with the sender, the recipient, the content and the time as
/// given. The messages of a user are listed for that user, as many as asked for and from
/// where asked for.
pub proof fn law_message_requests(
    message_id: Seq<char>,
    sender: Seq<char>,
    recipient: Seq<char>,
    content: Seq<char>,
    timestamp: i64,
    username: Seq<char>,
    limit: i64,
    offset: i64,
    id: Seq<char>,
)
    ensures
        ({
            let save = store::task_of(
                DbCall::StoreMessage { sender, recipient, content, timestamp },
                message_id,
            );
            let list = store::task_of(DbCall::GetUserMessages { username, limit, offset }, id);
            &&& executes(
                save,
                "INSERT INTO messages (id, sender_username, recipient_username, content, sent_at) VALUES (?, ?, ?, ?, datetime(?/1000, 'unixepoch'))"@,
                seq![
                    SqlValue::Text(message_id),
                    SqlValue::Text(sender),
                    SqlValue::Text(recipient),
                    SqlValue::Text(content),
                    SqlValue::Integer(timestamp),
                ],
            )
            &&& ends(save, DbValue::Unit, "Ошибка сохранения сообщения: "@)
            &&& queries(
                list,
                "SELECT sender_username, recipient_username, content, strftime('%s', sent_at) * 1000
             FROM messages
             WHERE sender_username = ? OR recipient_username = ?
             ORDER BY sent_at ASC
             LIMIT ? OFFSET ?"@,
                seq![
                    SqlValue::Text(username),
                    SqlValue::Text(username),
                    SqlValue::Integer(limit),
                    SqlValue::Integer(offset),
                ],
                seq![text_column(0), text_column(1), text_column(2), number_column(3)],
                false,
            )
            &&& reports(list, "Ошибка подготовки: "@, "Ошибка выполнения: "@, "Ошибка чтения: "@)
        }),
{
    lemma_no_items();
}

/// A room is put in under its identifier with its name and its creator, who is then the
/// first in it.
pub proof fn law_new_room_request(
    room: Room,
    room_id: Seq<char>,
    name: Seq<char>,
    creator: Seq<char>,
)
    ensures
        ({
            let task = store::task_of(DbCall::CreateRoom { room, name, creator }, room_id);
            &&& executes(
                task,
                of_sort(
                    room,
                    "INSERT INTO groups (id, name, creator_username) VALUES (?, ?, ?)"@,
                    "INSERT INTO channels (id, name, creator_username) VALUES (?, ?, ?)"@,
                ),
                seq![SqlValue::Text(room_id), SqlValue::Text(name), SqlValue::Text(creator)],
            )
            &&& forall|e: Seq<char>| #[trigger]
                progress::resumed(task.op, DbReplyView::Failed(e)) == db::StepView::Done(
                    Err(of_sort(room, "Ошибка создания группы: "@, "Ошибка создания канала: "@) + e),
                )
            &&& progress::resumed(task.op, DbReplyView::Done) matches db::StepView::Ask(next)
            &&& executes(
                next,
                of_sort(
                    room,
                    "INSERT INTO group_members (group_id, username, role) VALUES (?, ?, 'owner')"@,
                    "INSERT INTO channel_subscribers (channel_id, username) VALUES (?, ?)"@,
                ),
                seq![SqlValue::Text(room_id), SqlValue::Text(creator)],
            )
            &&& ends(
                next,
                DbValue::Unit,
                of_sort(
                    room,
                    "Ошибка добавления создателя в группу: "@,
                    "Ошибка подписки создателя: "@,
                ),
            )
        }),
{
}

/// Whether the room of the name is looked up, and refused where there is none.
pub open spec fn looks_up(task: db::TaskView, room: Room, name: Seq<char>) -> bool {
    &&& queries(
        task,
        of_sort(room, "SELECT id FROM groups WHERE name = ?"@, "SELECT id FROM channels WHERE name = ?"@),
        seq![SqlValue::Text(name)],
        seq![text_column(0)],
        true,
    )
    &&& reports(
        task,
        of_sort(room, "Ошибка запроса группы: "@, "Ошибка запроса канала: "@),
        "Ошибка выполнения: "@,
        "Ошибка чтения: "@,
    )
    &&& progress::resumed(task.op, no_rows()) == db::StepView::Done(
        Err(of_sort(room, "Группа не найдена"@, "Канал не найден"@)),
    )
    &&& reports_cell(task, "Ошибка чтения id: "@)
}

/// A user is taken into the room of the name, and let out of it, by the identifier of that
/// room.
pub proof fn law_membership_requests(
    room: Room,
    name: Seq<char>,
    username: Seq<char>,
    room_id: Seq<char>,
    id: Seq<char>,
)
    ensures
        ({
            let join = store::task_of(DbCall::JoinRoom { room, name, username }, id);
            let leave = store::task_of(DbCall::LeaveRoom { room, name, username }, id);
            let found = one_row(seq![Cell::Text(room_id)]);
            let params = seq![SqlValue::Text(room_id), SqlValue::Text(username)];
            &&& looks_up(join, room, name)
            &&& looks_up(leave, room, name)
            &&& progress::resumed(join.op, found) matches db::StepView::Ask(joined)
            &&& executes(
                joined,
                of_sort(
                    room,
                    "INSERT OR IGNORE INTO group_members (group_id, username, role) VALUES (?, ?, 'member')"@,
                    "INSERT OR IGNORE INTO channel_subscribers (channel_id, username) VALUES (?, ?)"@,
                ),
                params,
            )
            &&& ends(
                joined,
                DbValue::Unit,
                of_sort(room, "Ошибка присоединения к группе: "@, "Ошибка подписки: "@),
            )
            &&& progress::resumed(leave.op, found) matches db::StepView::Ask(left)
            &&& executes(
                left,
                of_sort(
                    room,
                    "DELETE FROM group_members WHERE group_id = ? AND username = ?"@,
                    "DELETE FROM channel_subscribers WHERE channel_id = ? AND username = ?"@,
                ),
                params,
            )
            &&& ends(
                left,
                DbValue::Unit,
                of_sort(room, "Ошибка выхода из группы: "@, "Ошибка отписки: "@),
            )
        }),
{
}

/// A message is put into the room of the name with the sender, the content and the time as
/// given.
pub proof fn law_room_message_request(
    room: Room,
    name: Seq<char>,
    sender: Seq<char>,
    content: Seq<char>,
    timestamp: i64,
    room_id: Seq<char>,
    message_id: Seq<char>,
)
    ensures
        ({
            let task = store::task_of(
                DbCall::StoreRoomMessage { room, name, sender, content, timestamp },
                message_id,
            );
            &&& looks_up(task, room, name)
            &&& progress::resumed(task.op, one_row(seq![Cell::Text(room_id)])) matches
                db::StepView::Ask(next)
            &&& executes(
                next,
                of_sort(
                    room,
                    "INSERT INTO group_messages (id, group_id, sender_username, content, sent_at) VALUES (?, ?, ?, ?, datetime(?/1000, 'unixepoch'))"@,
                    "INSERT INTO channel_messages (id, channel_id, sender_username, content, sent_at) VALUES (?, ?, ?, ?, datetime(?/1000, 'unixepoch'))"@,
                ),
                seq![
                    SqlValue::Text(message_id),
                    SqlValue::Text(room_id),
                    SqlValue::Text(sender),
                    SqlValue::Text(content),
                    SqlValue::Integer(timestamp),
                ],
            )
            &&& ends(
                next,
                DbValue::Unit,
                of_sort(
                    room,
                    "Ошибка сохранения группового сообщения: "@,
                    "Ошибка сохранения сообщения канала: "@,
                ),
            )
        }),
{
}

/// Who is in a room is listed for the room of the name. Whether a user is in it, and whether
/// a channel is the user's own, is asked for the room and the user.
pub proof fn law_access_requests(
    room: Room,
    name: Seq<char>,
    username: Seq<char>,
    id: Seq<char>,
)
    ensures
        ({
            let list = store::task_of(DbCall::GetMembers { room, name }, id);
            let inside = store::task_of(DbCall::IsMember { room, name, username }, id);
            let owner = store::task_of(DbCall::IsChannelOwner { name, username }, id);
            let none = Seq::<char>::empty();
            &&& queries(
                list,
                of_sort(
                    room,
                    "SELECT gm.username FROM group_members gm JOIN groups g ON gm.group_id = g.id WHERE g.name = ?"@,
                    "SELECT cs.username FROM channel_subscribers cs JOIN channels c ON cs.channel_id = c.id WHERE c.name = ?"@,
                ),
                seq![SqlValue::Text(name)],
                seq![text_column(0)],
                false,
            )
            &&& reports(
                list,
                of_sort(room, "Ошибка запроса участников: "@, "Ошибка запроса подписчиков: "@),
                "Ошибка выполнения: "@,
                "Ошибка чтения: "@,
            )
            &&& lists_names(list)
            &&& reports_cell(list, "Ошибка чтения username: "@)
            &&& queries(
                inside,
                of_sort(
                    room,
                    "SELECT 1 FROM group_members gm JOIN groups g ON gm.group_id = g.id WHERE g.name = ? AND gm.username = ?"@,
                    "SELECT 1 FROM channel_subscribers cs JOIN channels c ON cs.channel_id = c.id WHERE c.name = ? AND cs.username = ?"@,
                ),
                seq![SqlValue::Text(name), SqlValue::Text(username)],
                Seq::empty(),
                true,
            )
            &&& reports(inside, "Ошибка запроса: "@, "Ошибка выполнения: "@, "Ошибка чтения: "@)
            &&& tells_whether(inside)
            &&& queries(
                owner,
                "SELECT 1 FROM channels WHERE name = ? AND creator_username = ?"@,
                seq![SqlValue::Text(name), SqlValue::Text(username)],
                Seq::empty(),
                true,
            )
            &&& reports(owner, none, none, none)
            &&& tells_whether(owner)
        }),
{
    lemma_no_items();
    lemma_names();
    lemma_bad_cell();
}

/// Whether a page of the messages of the room is asked for.
pub open spec fn asks_page(
    task: db::TaskView,
    room: Room,
    name: Seq<char>,
    limit: i64,
    offset: i64,
) -> bool {
    queries(
        task,
        of_sort(
            room,
            "SELECT gm.sender_username, gm.content, strftime('%s', gm.sent_at) * 1000
             FROM group_messages gm JOIN groups g ON gm.group_id = g.id
             WHERE g.name = ?
             ORDER BY gm.sent_at ASC
             LIMIT ? OFFSET ?"@,
            "SELECT cm.sender_username, cm.content, strftime('%s', cm.sent_at) * 1000
             FROM channel_messages cm JOIN channels c ON cm.channel_id = c.id
             WHERE c.name = ?
             ORDER BY cm.sent_at ASC
             LIMIT ? OFFSET ?"@,
        ),
        seq![SqlValue::Text(name), SqlValue::Integer(limit), SqlValue::Integer(offset)],
        seq![text_column(0), text_column(1), number_column(2)],
        false,
    )
}

/// A reply with a row for each of the messages of a room.
pub open spec fn rows_of_room(messages: Seq<StoredMessage<Seq<char>>>) -> DbReplyView {
    DbReplyView::Rows {
        rows: Seq::new(
            messages.len(),
            |i: int|
                seq![
                    Cell::Text(messages[i].sender),
                    Cell::Text(messages[i].content),
                    Cell::Integer(messages[i].timestamp),
                ],
        ),
        broken: None,
    }
}

/// Whether each of the messages is addressed to the room.
pub open spec fn addressed_to(messages: Seq<StoredMessage<Seq<char>>>, name: Seq<char>) -> bool {
    forall|i: int| 0 <= i < messages.len() ==> (#[trigger] messages[i]).recipient == name
}

/// The messages of a room are listed for the room of the name, as many as asked for and from
/// where asked for, with the room as their recipient.
pub proof fn law_room_messages_request(
    room: Room,
    name: Seq<char>,
    limit: i64,
    offset: i64,
    messages: Seq<StoredMessage<Seq<char>>>,
    id: Seq<char>,
)
    requires
        addressed_to(messages, name),
    ensures
        ({
            let task = store::task_of(DbCall::GetRoomMessages { room, name, limit, offset }, id);
            &&& asks_page(task, room, name, limit, offset)
            &&& reports(task, "Ошибка подготовки: "@, "Ошибка выполнения: "@, "Ошибка чтения: "@)
            &&& progress::resumed(task.op, rows_of_room(messages)) == db::StepView::Done(
                Ok(DbValue::Messages(messages)),
            )
        }),
{
    lemma_no_items();
    lemma_room_rows(messages, name);
}

/// A history lists the rooms that the user is in, and then the first hundred messages of
/// each, one room after the other in the order of the list. A user who is in no room has no
/// messages.
pub proof fn law_history_requests(
    room: Room,
    username: Seq<char>,
    names: Seq<Seq<char>>,
    name: Seq<char>,
    rest: Seq<Seq<char>>,
    found: Seq<StoredMessage<Seq<char>>>,
    messages: Seq<StoredMessage<Seq<char>>>,
    id: Seq<char>,
)
    requires
        addressed_to(messages, name),
    ensures
        ({
            let task = store::task_of(DbCall::RoomHistory { room, username }, id);
            let none = Seq::<char>::empty();
            let started = progress::resumed(task.op, rows_of_names(names));
            let further = progress::resumed(
                DbOp::HistoryRoom { room, name, rest, found },
                rows_of_room(messages),
            );
            &&& queries(
                task,
                of_sort(
                    room,
                    "SELECT g.name FROM groups g JOIN group_members gm ON g.id = gm.group_id WHERE gm.username = ?"@,
                    "SELECT c.name FROM channels c JOIN channel_subscribers cs ON c.id = cs.channel_id WHERE cs.username = ?"@,
                ),
                seq![SqlValue::Text(username)],
                seq![text_column(0)],
                false,
            )
            &&& reports(task, none, none, none)
            &&& looks_into(started, room, names, Seq::empty())
            &&& looks_into(further, room, rest, found + messages)
            &&& forall|request: DbRequestView|
                reports(
                    #[trigger] inside_history(request, room, name, rest, found),
                    "Ошибка подготовки: "@,
                    "Ошибка выполнения: "@,
                    "Ошибка чтения: "@,
                )
        }),
{
    lemma_no_items();
    lemma_names();
    lemma_room_rows(messages, name);
    let task = store::task_of(DbCall::RoomHistory { room, username }, id);
    assert(task.op == db::OpView::HistoryNames { room });
    let label = Seq::<char>::empty();
    assert(rows::lines_of(
        rows_of_names(names),
        store::unlabelled(),
        LineReader::Name { label },
    ) == Ok::<Seq<Seq<char>>, Seq<char>>(names));
}

/// A history that waits for the messages of one room.
pub open spec fn inside_history(
    request: DbRequestView,
    room: Room,
    name: Seq<char>,
    rest: Seq<Seq<char>>,
    found: Seq<StoredMessage<Seq<char>>>,
) -> db::TaskView {
    db::TaskView { request, op: DbOp::HistoryRoom { room, name, rest, found } }
}

/// Whether the first of the rooms that are left is looked into, or the messages that were
/// found come out where none is left.
pub open spec fn looks_into(
    step: db::StepView,
    room: Room,
    rest: Seq<Seq<char>>,
    found: Seq<StoredMessage<Seq<char>>>,
) -> bool {
    if rest.len() == 0 {
        step == db::StepView::Done(Ok(DbValue::Messages(found)))
    } else {
        &&& step matches db::StepView::Ask(next)
        &&& asks_page(next, room, rest[0], 100, 0)
        &&& next.op == db::OpView::HistoryRoom { room, name: rest[0], rest: rest.skip(1), found }
    }
}

/// The groups of a user are listed by their names, and the channels with their owners behind
/// a bar.
pub proof fn law_list_requests(
    username: Seq<char>,
    channels: Seq<(Seq<char>, Seq<char>)>,
    id: Seq<char>,
)
    ensures
        ({
            let groups = store::task_of(DbCall::ListGroups { username }, id);
            let list = store::task_of(DbCall::ListChannels { username }, id);
            let none = Seq::<char>::empty();
            let reply = DbReplyView::Rows {
                rows: Seq::new(
                    channels.len(),
                    |i: int| seq![Cell::Text(channels[i].0), Cell::Text(channels[i].1)],
                ),
                broken: None,
            };
            &&& queries(
                groups,
                "SELECT g.name FROM groups g JOIN group_members gm ON g.id = gm.group_id WHERE gm.username = ?"@,
                seq![SqlValue::Text(username)],
                seq![text_column(0)],
                false,
            )
            &&& reports(groups, none, none, none)
            &&& lists_names(groups)
            &&& reports_cell(groups, none)
            &&& queries(
                list,
                "SELECT c.name, c.creator_username FROM channels c JOIN channel_subscribers cs ON c.id = cs.channel_id WHERE cs.username = ?"@,
                seq![SqlValue::Text(username)],
                seq![text_column(0), text_column(1)],
                false,
            )
            &&& reports(list, none, none, none)
            &&& progress::resumed(list.op, reply) == db::StepView::Done(
                Ok(
                    DbValue::Names(
                        Seq::new(
                            channels.len(),
                            |i: int| channels[i].0 + "|"@ + channels[i].1,
                        ),
                    ),
                ),
            )
        }),
{
    lemma_no_items();
    lemma_names();
    lemma_bad_cell();
    let rows = Seq::new(
        channels.len(),
        |i: int| seq![Cell::Text(channels[i].0), Cell::Text(channels[i].1)],
    );
    let lines = Seq::new(channels.len(), |i: int| channels[i].0 + "|"@ + channels[i].1);
    let items = rows.map_values(rows::line_reader(LineReader::Channel));
    assert forall|i: int| 0 <= i < items.len() implies #[trigger] items[i] == Ok::<
        Seq<char>,
        Seq<char>,
    >(lines[i]) by {
        assert(rows[i] == seq![Cell::Text(channels[i].0), Cell::Text(channels[i].1)]);
    }
    sql::law_collected(items, lines);
}

/// A user as the database lists one: the user name and, where they can be read, the first
/// and the last name.
pub type UserRow = (Seq<char>, Option<Seq<char>>, Option<Seq<char>>);

/// A name as it stands in a row.
pub open spec fn name_cell(name: Option<Seq<char>>, why: Seq<char>) -> Cell<Seq<char>> {
    match name {
        Some(name) => Cell::Text(name),
        None => Cell::Failed(why),
    }
}

/// All users are listed, each with the name that the user is shown by behind a bar: first and
/// last name, the first name alone, or else the user name.
pub proof fn law_users_request(users: Seq<UserRow>, why: Seq<char>, id: Seq<char>)
    ensures
        ({
            let task = store::task_of(DbCall::ListUsers, id);
            let none = Seq::<char>::empty();
            let reply = DbReplyView::Rows {
                rows: Seq::new(
                    users.len(),
                    |i: int|
                        seq![
                            Cell::Text(users[i].0),
                            name_cell(users[i].1, why),
                            name_cell(users[i].2, why),
                        ],
                ),
                broken: None,
            };
            &&& queries(
                task,
                "SELECT username, first_name, last_name FROM users ORDER BY username"@,
                Seq::empty(),
                seq![text_column(0), text_column(1), text_column(2)],
                false,
            )
            &&& reports(task, none, none, none)
            &&& progress::resumed(task.op, reply) == db::StepView::Done(
                Ok(
                    DbValue::Names(
                        Seq::new(
                            users.len(),
                            |i: int|
                                users[i].0 + "|"@ + shown_by(users[i].0, users[i].1, users[i].2),
                        ),
                    ),
                ),
            )
        }),
{
    lemma_no_items();
    let rows = Seq::new(
        users.len(),
        |i: int|
            seq![
                Cell::Text(users[i].0),
                name_cell(users[i].1, why),
                name_cell(users[i].2, why),
            ],
    );
    let lines = Seq::new(
        users.len(),
        |i: int|
            users[i].0 + "|"@ + shown_by(users[i].0, users[i].1, users[i].2),
    );
    let items = rows.map_values(rows::line_reader(LineReader::User));
    assert forall|i: int| 0 <= i < items.len() implies #[trigger] items[i] == Ok::<
        Seq<char>,
        Seq<char>,
    >(lines[i]) by {
        assert(rows[i] == seq![
            Cell::Text(users[i].0),
            name_cell(users[i].1, why),
            name_cell(users[i].2, why),
        ]);
    }
    sql::law_collected(items, lines);
}

/// A profile is looked up by the user name and comes out as it stands.
pub proof fn law_profile_request(username: Seq<char>, profile: Profile<Seq<char>>, id: Seq<char>)
    ensures
        ({
            let task = store::task_of(DbCall::GetProfile { username }, id);
            &&& queries(
                task,
                "SELECT username, phone, first_name, last_name, display_name FROM users WHERE username = ?"@,
                seq![SqlValue::Text(username)],
                seq![
                    text_column(0),
                    text_column(1),
                    text_column(2),
                    text_column(3),
                    text_column(4),
                ],
                true,
            )
            &&& reports(
                task,
                "Ошибка подготовки запроса: "@,
                "Ошибка выполнения запроса: "@,
                "Ошибка чтения результата: "@,
            )
            &&& progress::resumed(task.op, no_rows()) == db::StepView::Done(
                Err("Пользователь не найден"@),
            )
            &&& progress::resumed(
                task.op,
                one_row(
                    seq![
                        Cell::Text(profile.username),
                        Cell::Text(profile.phone),
                        Cell::Text(profile.first_name),
                        Cell::Text(profile.last_name),
                        Cell::Text(profile.display_name),
                    ],
                ),
            ) == db::StepView::Done(Ok(DbValue::Profile(profile)))
        }),
{
}

/// First and last name are changed for the user, who is then shown by both, or by the first
/// one where the last is empty. The name that a user is shown by is changed for the user.
pub proof fn law_name_requests(
    username: Seq<char>,
    first: Seq<char>,
    last: Seq<char>,
    display_name: Seq<char>,
    id: Seq<char>,
)
    ensures
        ({
            let name = store::task_of(DbCall::SetName { username, first, last }, id);
            let shown = store::task_of(DbCall::SetDisplayName { username, display_name }, id);
            &&& executes(
                name,
                "UPDATE users SET first_name = ?, last_name = ?, display_name = ? WHERE username = ?"@,
                seq![
                    SqlValue::Text(first),
                    SqlValue::Text(last),
                    SqlValue::Text(
                        if last.len() == 0 {
                            first
                        } else {
                            first + " "@ + last
                        },
                    ),
                    SqlValue::Text(username),
                ],
            )
            &&& ends(name, DbValue::Unit, "Ошибка обновления имени: "@)
            &&& executes(
                shown,
                "UPDATE users SET display_name = ? WHERE username = ?"@,
                seq![SqlValue::Text(display_name), SqlValue::Text(username)],
            )
            &&& ends(shown, DbValue::Unit, "Ошибка обновления отображаемого имени: "@)
        }),
{
}

/// A user name is changed from the old one to the new one, if nobody has the new one and
/// somebody has the old one.
pub proof fn law_username_change(
    old_username: Seq<char>,
    new_username: Seq<char>,
    row: Seq<Cell<Seq<char>>>,
    id: Seq<char>,
)
    ensures
        ({
            let first = store::task_of(DbCall::SetUsername { old_username, new_username }, id);
            let prepare = "Ошибка подготовки запроса: "@;
            let run = "Ошибка выполнения запроса: "@;
            let step = "Ошибка чтения: "@;
            &&& queries(
                first,
                "SELECT 1 FROM users WHERE username = ?"@,
                seq![SqlValue::Text(new_username)],
                Seq::empty(),
                true,
            )
            &&& reports(first, prepare, run, step)
            &&& progress::resumed(first.op, one_row(row)) == db::StepView::Done(
                Err("Username уже занят"@),
            )
            &&& progress::resumed(first.op, no_rows()) matches db::StepView::Ask(second)
            &&& queries(
                second,
                "SELECT 1 FROM users WHERE username = ?"@,
                seq![SqlValue::Text(old_username)],
                Seq::empty(),
                true,
            )
            &&& reports(second, prepare, run, step)
            &&& progress::resumed(second.op, no_rows()) == db::StepView::Done(
                Err("Пользователь не найден"@),
            )
            &&& progress::resumed(second.op, one_row(row)) matches db::StepView::Ask(third)
            &&& executes(
                third,
                "UPDATE users SET username = ? WHERE username = ?"@,
                seq![SqlValue::Text(new_username), SqlValue::Text(old_username)],
            )
            &&& ends(third, DbValue::Unit, "Ошибка обновления username: "@)
        }),
{
}

/// A column of a profile that cannot be read is reported by its name.
pub proof fn law_unreadable_profile(
    a: Seq<char>,
    b: Seq<char>,
    c: Seq<char>,
    d: Seq<char>,
    e: Seq<char>,
)
    ensures
        ({
            let ta = Cell::Text(a);
            let tb = Cell::Text(b);
            let tc = Cell::Text(c);
            let td = Cell::Text(d);
            let bad = Cell::Failed(e);
            let op = db::OpView::GetProfile;
            &&& progress::resumed(op, one_row(seq![bad, ta, tb, tc, td])) == progress::failed(
                "Ошибка чтения username: "@ + e,
            )
            &&& progress::resumed(op, one_row(seq![ta, bad, tb, tc, td])) == progress::failed(
                "Ошибка чтения phone: "@ + e,
            )
            &&& progress::resumed(op, one_row(seq![ta, tb, bad, tc, td])) == progress::failed(
                "Ошибка чтения first_name: "@ + e,
            )
            &&& progress::resumed(op, one_row(seq![ta, tb, tc, bad, td])) == progress::failed(
                "Ошибка чтения last_name: "@ + e,
            )
            &&& progress::resumed(op, one_row(seq![ta, tb, tc, td, bad])) == progress::failed(
                "Ошибка чтения display_name: "@ + e,
            )
        }),
{
}

/// A column that cannot be read is reported by its name: the first such column of a private
/// message, of a room's message, of a session and of an account.
pub proof fn law_unreadable_columns(
    a: Seq<char>,
    b: Seq<char>,
    c: Seq<char>,
    n: i64,
    e: Seq<char>,
    name: Seq<char>,
    password: Seq<char>,
    token: Seq<char>,
)
    ensures
        ({
            let ta = Cell::Text(a);
            let tb = Cell::Text(b);
            let tc = Cell::Text(c);
            let bad = Cell::Failed(e);
            let private = MessageReader::<Seq<char>>::Private;
            let room = MessageReader::Room { name };
            let login = DbOp::Login { password };
            let session = DbOp::CheckSession { token };
            &&& rows::message_of(private, seq![bad, tb, tc, Cell::Integer(n)]) == unread(
                "Ошибка чтения sender: "@ + e,
            )
            &&& rows::message_of(private, seq![ta, bad, tc, Cell::Integer(n)]) == unread(
                "Ошибка чтения recipient: "@ + e,
            )
            &&& rows::message_of(private, seq![ta, tb, bad, Cell::Integer(n)]) == unread(
                "Ошибка чтения content: "@ + e,
            )
            &&& rows::message_of(private, seq![ta, tb, tc, bad]) == unread(
                "Ошибка чтения timestamp: "@ + e,
            )
            &&& rows::message_of(room, seq![bad, tb, Cell::Integer(n)]) == unread(
                "Ошибка чтения sender: "@ + e,
            )
            &&& rows::message_of(room, seq![ta, bad, Cell::Integer(n)]) == unread(
                "Ошибка чтения content: "@ + e,
            )
            &&& rows::message_of(room, seq![ta, tb, bad]) == unread(
                "Ошибка чтения timestamp: "@ + e,
            )
            &&& progress::resumed(login, one_row(seq![bad, tb])) == progress::failed(
                "Ошибка чтения id: "@ + e,
            )
            &&& progress::resumed(login, one_row(seq![ta, bad])) == progress::failed(
                "Ошибка чтения hash: "@ + e,
            )
            &&& progress::resumed(session, one_row(seq![bad, tb])) == progress::failed(
                "Ошибка чтения user_id: "@ + e,
            )
            &&& progress::resumed(session, one_row(seq![ta, bad])) == progress::failed(
                "Ошибка чтения username: "@ + e,
            )
        }),
{
}

/// A message that could not be read.
pub open spec fn unread(why: Seq<char>) -> Result<StoredMessage<Seq<char>>, Seq<char>> {
    Err(why)
}

/// A list of channels or of users that cannot be read is reported in the database's words. A
/// first or last name that cannot be read counts as not given.
pub proof fn law_unreadable_lines(a: Seq<char>, b: Seq<char>, e: Seq<char>)
    ensures
        ({
            let ta = Cell::Text(a);
            let tb = Cell::Text(b);
            let bad = Cell::Failed(e);
            let why = Err::<Seq<char>, Seq<char>>(Seq::empty() + e);
            &&& rows::line_of(LineReader::Channel, seq![bad, tb]) == why
            &&& rows::line_of(LineReader::Channel, seq![ta, bad]) == why
            &&& rows::line_of(LineReader::User, seq![bad, ta, tb]) == why
            &&& rows::line_of(LineReader::User, seq![ta, bad, tb]) == Ok::<Seq<char>, Seq<char>>(
                a + "|"@ + a,
            )
            &&& rows::line_of(LineReader::User, seq![ta, tb, bad]) == Ok::<Seq<char>, Seq<char>>(
                a + "|"@ + b,
            )
        }),
{
}

/// Whether a table has a column is told by the names of its columns.
pub proof fn law_column(names: Seq<Seq<char>>, column: Seq<char>)
    ensures
        rows::column_of(rows_of_names(names), column) == Ok::<bool, Seq<char>>(
            names.contains(column),
        ),
    decreases names.len(),
{
    let rows = Seq::new(names.len(), |i: int| seq![Cell::Text(names[i])]);
    let none: Option<Seq<char>> = None;
    if names.len() > 0 {
        let rest = names.skip(1);
        law_column(rest, column);
        let rows_rest = Seq::new(rest.len(), |i: int| seq![Cell::Text(rest[i])]);
        assert(rows.skip(1) =~= rows_rest) by {
            assert forall|i: int| 0 <= i < rest.len() implies rows.skip(1)[i] == rows_rest[i] by {
                assert(rest[i] == names[i + 1]);
            }
        }
        assert(rows[0] == seq![Cell::Text(names[0])]);
        assert(rows::names_column(rows_rest, none, column) == Ok::<bool, Seq<char>>(
            rest.contains(column),
        ));
        if names[0] == column {
            assert(names.contains(column));
        } else if names.contains(column) {
            let k = names.index_of(column);
            assert(rest[k - 1] == column);
        } else if rest.contains(column) {
            let k = rest.index_of(column);
            assert(names[k + 1] == column);
        }
    }
}

/// The tables with messages are brought up to date by the column for the time, and the table
/// of push tokens is seen by its column for the token.
pub proof fn law_migrated_tables()
    ensures
        statements::info_of(0) == "PRAGMA table_info(messages)"@,
        statements::info_of(1) == "PRAGMA table_info(group_messages)"@,
        statements::info_of(2) == "PRAGMA table_info(channel_messages)"@,
        statements::info_of(3) == "PRAGMA table_info(fcm_tokens)"@,
        statements::newest_of(0) == "sent_at"@,
        statements::newest_of(1) == "sent_at"@,
        statements::newest_of(2) == "sent_at"@,
        statements::newest_of(3) == "token"@,
        statements::fix_of(0) == "ALTER TABLE messages ADD COLUMN sent_at TIMESTAMP DEFAULT CURRENT_TIMESTAMP"@,
        statements::fix_of(1) == "ALTER TABLE group_messages ADD COLUMN sent_at TIMESTAMP DEFAULT CURRENT_TIMESTAMP"@,
        statements::fix_of(2) == "ALTER TABLE channel_messages ADD COLUMN sent_at TIMESTAMP DEFAULT CURRENT_TIMESTAMP"@,
        statements::fix_of(3) == statements::CREATE_FCM_TOKENS@,
        statements::add_of(0) == statements::ADD_MESSAGES@,
        statements::add_of(1) == statements::ADD_GROUP_MESSAGES@,
        statements::add_of(2) == statements::ADD_CHANNEL_MESSAGES@,
        statements::index_of(0) == "CREATE INDEX IF NOT EXISTS idx_messages_sender ON messages(sender_username)"@,
        statements::index_of(1) == "CREATE INDEX IF NOT EXISTS idx_messages_recipient ON messages(recipient_username)"@,
        statements::index_of(2) == "CREATE INDEX IF NOT EXISTS idx_group_messages_group ON group_messages(group_id)"@,
        statements::index_of(3) == "CREATE INDEX IF NOT EXISTS idx_channel_messages_channel ON channel_messages(channel_id)"@,
        statements::index_of(4) == "CREATE INDEX IF NOT EXISTS idx_sessions_user ON sessions(user_id)"@,
        statements::index_of(5) == "CREATE INDEX IF NOT EXISTS idx_fcm_user ON fcm_tokens(user_id)"@,
{
}

/// Setting up makes the tables first. Then each table that lacks its newest column gets it,
/// and each index is made. What fails is reported, and ends it.
pub proof fn law_set_up_requests(
    table: usize,
    index: usize,
    again: bool,
    columns: Seq<Seq<char>>,
    e: Seq<char>,
    id: Seq<char>,
)
    requires
        table < 4,
        index < 6,
    ensures
        ({
            let init = store::task_of(DbCall::Init, id);
            let migrate = store::task_of(DbCall::Migrate, id);
            let check = db::OpView::CheckTable { table, again };
            let fix = db::OpView::FixTable { table, again };
            let checked = progress::resumed(check, rows_of_names(columns));
            let fixed = progress::resumed(fix, DbReplyView::Done);
            let made = progress::resumed(
                db::OpView::MakeIndex { index, again },
                DbReplyView::Done,
            );
            &&& init.request == DbRequestView::Batch { sql: statements::CREATE_TABLES@ }
            &&& progress::resumed(init.op, DbReplyView::Failed(e)) == progress::failed(
                "Ошибка создания таблиц: "@ + e,
            )
            &&& progress::resumed(init.op, DbReplyView::Done) matches db::StepView::Ask(next)
            &&& next.request == migrate.request
            &&& next.op == db::OpView::CheckTable { table: 0, again: true }
            &&& migrate.op == db::OpView::CheckTable { table: 0, again: false }
            &&& queries(
                migrate,
                "PRAGMA table_info(messages)"@,
                Seq::empty(),
                seq![text_column(1)],
                false,
            )
            &&& progress::resumed(check, DbReplyView::PrepareFailed(e)) == progress::failed(e)
            &&& progress::resumed(check, DbReplyView::RunFailed(e)) == progress::failed(e)
            &&& columns.contains(statements::newest_of(table)) ==> goes_on(checked, table, again)
            &&& !columns.contains(statements::newest_of(table)) ==> {
                &&& checked matches db::StepView::Ask(next)
                &&& executes(next, statements::fix_of(table), Seq::empty())
                &&& next.op == fix
            }
            &&& goes_on(fixed, table, again)
            &&& progress::resumed(
                db::OpView::MakeIndex { index, again },
                DbReplyView::Failed(e),
            ) == progress::failed(Seq::empty() + e)
            &&& index < 5 ==> makes_index(made, (index + 1) as usize, again)
            &&& index == 5 && again ==> makes_index(made, 0, false)
            &&& index == 5 && !again ==> made == progress::done(DbValue::Unit)
        }),
{
    law_column(columns, statements::newest_of(table));
}

/// Whether the next table is asked about or, behind the last one, the first index is made.
pub open spec fn goes_on(step: db::StepView, table: usize, again: bool) -> bool {
    if table < 3 {
        &&& step matches db::StepView::Ask(next)
        &&& queries(
            next,
            statements::info_of((table + 1) as usize),
            Seq::empty(),
            seq![text_column(1)],
            false,
        )
        &&& next.op == db::OpView::CheckTable { table: (table + 1) as usize, again }
    } else {
        makes_index(step, 0, again)
    }
}

/// Whether the index is made.
pub open spec fn makes_index(step: db::StepView, index: usize, again: bool) -> bool {
    &&& step matches db::StepView::Ask(next)
    &&& executes(next, statements::index_of(index), Seq::empty())
    &&& next.op == db::OpView::MakeIndex { index, again }
}

/// A column that cannot be added in the plain way is added, with values for the rows, in one
/// go, and where that fails too it is undone and the first reason reported. For the table of
/// push tokens there is no other way.
pub proof fn law_column_requests(table: usize, again: bool, first: Seq<char>, e: Seq<char>)
    requires
        table < 4,
    ensures
        ({
            let fix = db::OpView::FixTable { table, again };
            let failed = progress::resumed(fix, DbReplyView::Failed(first));
            let why = Seq::empty() + first;
            &&& table == 3 ==> failed == progress::failed(why)
            &&& table < 3 ==> {
                &&& failed matches db::StepView::Ask(add)
                &&& add.request == DbRequestView::Batch { sql: statements::add_of(table) }
                &&& goes_on(progress::resumed(add.op, DbReplyView::Done), table, again)
                &&& progress::resumed(add.op, DbReplyView::Failed(e)) matches db::StepView::Ask(
                    undo,
                )
                &&& executes(undo, "ROLLBACK"@, Seq::empty())
                &&& progress::resumed(undo.op, DbReplyView::Done) == progress::failed(why)
                &&& progress::resumed(undo.op, DbReplyView::Failed(e)) == progress::failed(why)
            }
        }),
{
}

proof fn lemma_no_items()
    ensures
        forall|read: spec_fn(Seq<Cell<Seq<char>>>) -> Result<Seq<char>, Seq<char>>|
            sql::collected(
                #[trigger] Seq::<Seq<Cell<Seq<char>>>>::empty().map_values(read),
            ) == Ok::<Seq<Seq<char>>, Seq<char>>(Seq::empty()),
{
}

proof fn lemma_bad_cell()
    ensures
        forall|e: Seq<char>, labels: sql::Labels<Seq<char>>, label: Seq<char>|
            #[trigger] rows::lines_of(
                one_row(seq![Cell::Failed(e)]),
                labels,
                LineReader::Name { label },
            ) == Err::<Seq<Seq<char>>, Seq<char>>(label + e),
{
    assert forall|e: Seq<char>, labels: sql::Labels<Seq<char>>, label: Seq<char>|
        #[trigger] rows::lines_of(
            one_row(seq![Cell::Failed(e)]),
            labels,
            LineReader::Name { label },
        ) == Err::<Seq<Seq<char>>, Seq<char>>(label + e) by {
        let rows = seq![seq![Cell::Failed(e)]];
        let items = rows.map_values(rows::line_reader(LineReader::Name { label }));
        assert(items[0] == Err::<Seq<char>, Seq<char>>(label + e));
        sql::law_first_error(items, 0, label + e);
    }
}

proof fn lemma_names()
    ensures
        forall|names: Seq<Seq<char>>, labels: sql::Labels<Seq<char>>, label: Seq<char>|
            #[trigger] rows::lines_of(
                rows_of_names(names),
                labels,
                LineReader::Name { label },
            ) == Ok::<Seq<Seq<char>>, Seq<char>>(names),
{
    assert forall|names: Seq<Seq<char>>, labels: sql::Labels<Seq<char>>, label: Seq<char>|
        #[trigger] rows::lines_of(rows_of_names(names), labels, LineReader::Name { label })
            == Ok::<Seq<Seq<char>>, Seq<char>>(names) by {
        let rows = Seq::new(names.len(), |i: int| seq![Cell::Text(names[i])]);
        let items = rows.map_values(rows::line_reader(LineReader::Name { label }));
        assert forall|i: int| 0 <= i < items.len() implies #[trigger] items[i] == Ok::<
            Seq<char>,
            Seq<char>,
        >(names[i]) by {
            assert(rows[i] == seq![Cell::Text(names[i])]);
        }
        sql::law_collected(items, names);
    }
}

proof fn lemma_room_rows(messages: Seq<StoredMessage<Seq<char>>>, name: Seq<char>)
    requires
        addressed_to(messages, name),
    ensures
        rows::messages_of(
            rows_of_room(messages),
            progress::session_labels(),
            MessageReader::Room { name },
        ) == Ok::<Seq<StoredMessage<Seq<char>>>, Seq<char>>(messages),
{
    let rows = Seq::new(
        messages.len(),
        |i: int|
            seq![
                Cell::Text(messages[i].sender),
                Cell::Text(messages[i].content),
                Cell::Integer(messages[i].timestamp),
            ],
    );
    let items = rows.map_values(rows::message_reader(MessageReader::Room { name }));
    assert forall|i: int| 0 <= i < items.len() implies #[trigger] items[i] == Ok::<
        StoredMessage<Seq<char>>,
        Seq<char>,
    >(messages[i]) by {
        assert(rows[i] == seq![
            Cell::Text(messages[i].sender),
            Cell::Text(messages[i].content),
            Cell::Integer(messages[i].timestamp),
        ]);
        assert(messages[i].recipient == name);
    }
    sql::law_collected(items, messages);
}

} // verus!
