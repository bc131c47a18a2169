//! What an operation on the database does with each reply.

use crate::db;
use crate::db::{
    Answer, DbCall, DbOp, DbStep, DbTask, DbValue, Op, Profile, Room, RoomAction, StoredMessage,
};
use crate::identity;
use crate::rows;
use crate::rows::{LineReader, MessageReader};
use crate::sql;
use crate::sql::{DbReply, DbRequest, Labels, SqlValue};
use crate::state::AppState;
use crate::statements;
use crate::store;
use crate::text;
use vstd::prelude::*;

verus! {

broadcast use {text::lemma_views_push, text::lemma_views_len, text::lemma_views_index};

/// The operation has come to its end.
pub open spec fn done(value: db::AnswerView) -> db::StepView {
    db::StepView::Done(Ok(value))
}

/// The operation has failed.
pub open spec fn failed(why: Seq<char>) -> db::StepView {
    db::StepView::Done(Err(why))
}

fn finish(value: Answer) -> (r: DbStep)
    ensures
        r@ == done(value@),
{
    DbStep::Done(Ok(value))
}

fn fail(why: String) -> (r: DbStep)
    ensures
        r@ == failed(why@),
{
    DbStep::Done(Err(why))
}

fn refuse(why: &str) -> (r: DbStep)
    ensures
        r@ == failed(why@),
{
    DbStep::Done(Err(why.to_owned()))
}

/// The end of an operation whose last statement has been executed.
pub open spec fn ended(result: Result<(), Seq<char>>, value: db::AnswerView) -> db::StepView {
    match result {
        Ok(()) => done(value),
        Err(e) => failed(e),
    }
}

fn end(reply: &DbReply, label: &str, value: Answer) -> (r: DbStep)
    requires
        reply@ is Done || reply@ is Failed,
    ensures
        r@ == ended(sql::executed(reply@, label@), value@),
{
    match sql::execute_result(reply, label) {
        Ok(()) => finish(value),
        Err(e) => fail(e),
    }
}

/// What comes of a login, once the password has been held against the hash.
pub open spec fn login_of(user_id: Seq<char>, verification: Result<bool, Seq<char>>) -> Result<
    Seq<char>,
    Seq<char>,
> {
    match verification {
        Ok(true) => Ok(user_id),
        Ok(false) => Err("Неверный телефон или пароль"@),
        Err(e) => Err("Ошибка проверки пароля: "@ + e),
    }
}

/// Decides on a login, once the password has been held against the hash.
pub fn login_result(user_id: String, verification: Result<bool, String>) -> (r: Result<
    String,
    String,
>)
    ensures
        match login_of(
            user_id@,
            match verification {
                Ok(b) => Ok(b),
                Err(e) => Err(e@),
            },
        ) {
            Ok(id) => r is Ok && r->Ok_0@ == id,
            Err(e) => r is Err && r->Err_0@ == e,
        },
{
    match verification {
        Ok(ok) => if ok {
            Ok(user_id)
        } else {
            Err("Неверный телефон или пароль".to_owned())
        },
        Err(e) => Err(text::concat2("Ошибка проверки пароля: ", e.as_str())),
    }
}

/// A text that ends the operation, or the error that does.
pub open spec fn told(result: Result<Seq<char>, Seq<char>>) -> db::StepView {
    match result {
        Ok(s) => done(DbValue::Text(s)),
        Err(e) => failed(e),
    }
}

fn tell(result: Result<String, String>) -> (r: DbStep)
    ensures
        r@ == told(
            match result {
                Ok(s) => Ok(s@),
                Err(e) => Err(e@),
            },
        ),
{
    match result {
        Ok(s) => finish(DbValue::Text(s)),
        Err(e) => fail(e),
    }
}

/// What a failed login is reported with.
pub open spec fn login_labels() -> Labels<Seq<char>> {
    store::labelled("Ошибка запроса: "@, "Ошибка выполнения: "@, "Ошибка чтения: "@)
}

/// The account that has the phone number, if there is one, decides on a login.
pub open spec fn logged_in(password: Seq<char>, reply: sql::DbReplyView) -> db::StepView {
    match sql::first_row(reply, login_labels()) {
        Err(e) => failed(e),
        Ok(None) => failed("Неверный телефон или пароль"@),
        Ok(Some(row)) => match sql::cell_text(row[0], "Ошибка чтения id: "@) {
            Err(e) => failed(e),
            Ok(user_id) => match sql::cell_text(row[1], "Ошибка чтения hash: "@) {
                Err(e) => failed(e),
                Ok(hash) => told(
                    login_of(user_id, identity::bcrypt_verification(password, hash)),
                ),
            },
        },
    }
}

fn log_in(password: &str, reply: &DbReply) -> (r: DbStep)
    requires
        rows::reads(reply@, seq![db::text_at(0), db::text_at(1)]),
    ensures
        r@ == logged_in(password@, reply@),
{
    let labels = store::labels("Ошибка запроса: ", "Ошибка выполнения: ", "Ошибка чтения: ");
    match sql::read_first(reply, &labels) {
        Err(e) => fail(e),
        Ok(None) => refuse("Неверный телефон или пароль"),
        Ok(Some(row)) => {
            assert(sql::row_fits(seq![db::text_at(0), db::text_at(1)], row@));
            assert(sql::cell_fits(sql::ColumnKind::Text, row@[0]));
            assert(sql::cell_fits(sql::ColumnKind::Text, row@[1]));
            match sql::read_text(&row.cells[0], "Ошибка чтения id: ") {
                Err(e) => fail(e),
                Ok(user_id) => match sql::read_text(&row.cells[1], "Ошибка чтения hash: ") {
                    Err(e) => fail(e),
                    Ok(hash) => {
                        let verification = identity::bcrypt_verify(password, hash.as_str());
                        tell(login_result(user_id, verification))
                    },
                },
            }
        },
    }
}

/// The name of the user that was looked up.
pub open spec fn username_found(reply: sql::DbReplyView) -> db::StepView {
    match sql::first_row(reply, store::unlabelled()) {
        Err(e) => failed(e),
        Ok(None) => failed("Пользователь не найден"@),
        Ok(Some(row)) => told(sql::cell_text(row[0], Seq::empty())),
    }
}

fn find_username(reply: &DbReply) -> (r: DbStep)
    requires
        rows::reads(reply@, seq![db::text_at(0)]),
    ensures
        r@ == username_found(reply@),
{
    let labels = store::no_labels();
    match sql::read_first(reply, &labels) {
        Err(e) => fail(e),
        Ok(None) => refuse("Пользователь не найден"),
        Ok(Some(row)) => {
            assert(sql::row_fits(seq![db::text_at(0)], row@));
            assert(sql::cell_fits(sql::ColumnKind::Text, row@[0]));
            let none = String::new();
            tell(sql::read_text(&row.cells[0], none.as_str()))
        },
    }
}

/// What a failed look-up of a session or of messages is reported with.
pub open spec fn session_labels() -> Labels<Seq<char>> {
    store::labelled("Ошибка подготовки: "@, "Ошибка выполнения: "@, "Ошибка чтения: "@)
}

/// The session that the token stands for is marked as just used.
pub open spec fn session_found(token: Seq<char>, reply: sql::DbReplyView) -> db::StepView {
    match sql::first_row(reply, session_labels()) {
        Err(e) => failed(e),
        Ok(None) => failed("Недействительный токен"@),
        Ok(Some(row)) => match sql::cell_text(row[0], "Ошибка чтения user_id: "@) {
            Err(e) => failed(e),
            Ok(user_id) => match sql::cell_text(row[1], "Ошибка чтения username: "@) {
                Err(e) => failed(e),
                Ok(username) => db::StepView::Ask(
                    store::statement_of(
                        statements::TOUCH_SESSION@,
                        seq![store::param(token)],
                        DbOp::TouchSession { user_id, username },
                    ),
                ),
            },
        },
    }
}

fn find_session(token: &str, reply: &DbReply) -> (r: DbStep)
    requires
        rows::reads(reply@, seq![db::text_at(0), db::text_at(1)]),
    ensures
        r@ == session_found(token@, reply@),
{
    let labels = store::labels("Ошибка подготовки: ", "Ошибка выполнения: ", "Ошибка чтения: ");
    match sql::read_first(reply, &labels) {
        Err(e) => fail(e),
        Ok(None) => refuse("Недействительный токен"),
        Ok(Some(row)) => {
            assert(sql::row_fits(seq![db::text_at(0), db::text_at(1)], row@));
            assert(sql::cell_fits(sql::ColumnKind::Text, row@[0]));
            assert(sql::cell_fits(sql::ColumnKind::Text, row@[1]));
            match sql::read_text(&row.cells[0], "Ошибка чтения user_id: ") {
                Err(e) => fail(e),
                Ok(user_id) => match sql::read_text(&row.cells[1], "Ошибка чтения username: ") {
                    Err(e) => fail(e),
                    Ok(username) => DbStep::Ask(
                        store::statement(
                            statements::TOUCH_SESSION,
                            store::params1(token),
                            DbOp::TouchSession { user_id, username },
                        ),
                    ),
                },
            }
        },
    }
}

/// Whether the query has a row.
pub open spec fn existence(labels: Labels<Seq<char>>, reply: sql::DbReplyView) -> db::StepView {
    match sql::first_row(reply, labels) {
        Err(e) => failed(e),
        Ok(row) => done(DbValue::Flag(row is Some)),
    }
}

fn exists_row(labels: &Labels<String>, reply: &DbReply) -> (r: DbStep)
    requires
        sql::answers_query(reply@),
    ensures
        r@ == existence(labels@, reply@),
{
    match sql::read_first(reply, labels) {
        Err(e) => fail(e),
        Ok(row) => finish(DbValue::Flag(row.is_some())),
    }
}

/// The lines that a query gives.
pub open spec fn listed(result: Result<Seq<Seq<char>>, Seq<char>>) -> db::StepView {
    match result {
        Ok(lines) => done(DbValue::Names(lines)),
        Err(e) => failed(e),
    }
}

fn list(reply: &DbReply, labels: &Labels<String>, reader: &LineReader<String>) -> (r: DbStep)
    requires
        rows::reads(reply@, rows::line_columns(reader@)),
    ensures
        r@ == listed(rows::lines_of(reply@, labels@, reader@)),
{
    match rows::read_lines(reply, labels, reader) {
        Ok(lines) => finish(DbValue::Names(lines)),
        Err(e) => fail(e),
    }
}

/// The messages that a query gives.
pub open spec fn history(result: Result<Seq<StoredMessage<Seq<char>>>, Seq<char>>) -> db::StepView {
    match result {
        Ok(messages) => done(DbValue::Messages(messages)),
        Err(e) => failed(e),
    }
}

fn list_messages(reply: &DbReply, reader: &MessageReader<String>) -> (r: DbStep)
    requires
        rows::reads(reply@, rows::message_columns(reader@)),
    ensures
        r@ == history(rows::messages_of(reply@, session_labels(), reader@)),
{
    let labels = store::labels("Ошибка подготовки: ", "Ошибка выполнения: ", "Ошибка чтения: ");
    match rows::read_messages(reply, &labels, reader) {
        Ok(messages) => finish(DbValue::Messages(messages)),
        Err(e) => fail(e),
    }
}

/// A new room gets its first member.
pub open spec fn room_made(
    room: Room,
    id: Seq<char>,
    creator: Seq<char>,
    reply: sql::DbReplyView,
) -> db::StepView {
    match sql::executed(reply, statements::room_texts_of(room).cannot_insert) {
        Err(e) => failed(e),
        Ok(()) => db::StepView::Ask(
            store::statement_of(
                statements::room_texts_of(room).insert_owner,
                seq![store::param(id), store::param(creator)],
                DbOp::Statement { label: statements::room_texts_of(room).cannot_insert_owner },
            ),
        ),
    }
}

fn make_room(room: Room, id: &str, creator: &str, reply: &DbReply) -> (r: DbStep)
    requires
        reply@ is Done || reply@ is Failed,
    ensures
        r@ == room_made(room, id@, creator@, reply@),
{
    let texts = statements::room_texts(room);
    match sql::execute_result(reply, texts.cannot_insert) {
        Err(e) => fail(e),
        Ok(()) => DbStep::Ask(
            store::statement(
                texts.insert_owner,
                store::params2(id, creator),
                DbOp::Statement { label: texts.cannot_insert_owner.to_owned() },
            ),
        ),
    }
}

/// The statement by which something is done with a room.
pub open spec fn room_statement(
    room: Room,
    id: Seq<char>,
    action: RoomAction<Seq<char>>,
) -> db::TaskView {
    let texts = statements::room_texts_of(room);
    match action {
        RoomAction::Join { username } => store::statement_of(
            texts.join,
            seq![store::param(id), store::param(username)],
            DbOp::Statement { label: texts.cannot_join },
        ),
        RoomAction::Leave { username } => store::statement_of(
            texts.leave,
            seq![store::param(id), store::param(username)],
            DbOp::Statement { label: texts.cannot_leave },
        ),
        RoomAction::Store { message_id, sender, content, timestamp } => store::statement_of(
            texts.insert_message,
            seq![
                store::param(message_id),
                store::param(id),
                store::param(sender),
                store::param(content),
                SqlValue::Integer(timestamp),
            ],
            DbOp::Statement { label: texts.cannot_store },
        ),
    }
}

fn room_task(room: Room, id: &str, action: &RoomAction<String>) -> (r: DbTask)
    ensures
        r@ == room_statement(room, id@, action@),
{
    let texts = statements::room_texts(room);
    match action {
        RoomAction::Join { username } => store::statement(
            texts.join,
            store::params2(id, username.as_str()),
            DbOp::Statement { label: texts.cannot_join.to_owned() },
        ),
        RoomAction::Leave { username } => store::statement(
            texts.leave,
            store::params2(id, username.as_str()),
            DbOp::Statement { label: texts.cannot_leave.to_owned() },
        ),
        RoomAction::Store { message_id, sender, content, timestamp } => {
            let mut params = store::params4(
                message_id.as_str(),
                id,
                sender.as_str(),
                content.as_str(),
            );
            params.push(SqlValue::Integer(*timestamp));
            store::statement(
                texts.insert_message,
                params,
                DbOp::Statement { label: texts.cannot_store.to_owned() },
            )
        },
    }
}

/// What a failed look-up of a room is reported with.
pub open spec fn room_labels(room: Room) -> Labels<Seq<char>> {
    store::labelled(
        statements::room_texts_of(room).cannot_find,
        "Ошибка выполнения: "@,
        "Ошибка чтения: "@,
    )
}

/// Something is done with the room, if there is one.
pub open spec fn room_found(
    room: Room,
    action: RoomAction<Seq<char>>,
    reply: sql::DbReplyView,
) -> db::StepView {
    match sql::first_row(reply, room_labels(room)) {
        Err(e) => failed(e),
        Ok(None) => failed(statements::room_texts_of(room).not_found),
        Ok(Some(row)) => match sql::cell_text(row[0], "Ошибка чтения id: "@) {
            Err(e) => failed(e),
            Ok(id) => db::StepView::Ask(room_statement(room, id, action)),
        },
    }
}

fn use_room(room: Room, action: &RoomAction<String>, reply: &DbReply) -> (r: DbStep)
    requires
        rows::reads(reply@, seq![db::text_at(0)]),
    ensures
        r@ == room_found(room, action@, reply@),
{
    let texts = statements::room_texts(room);
    let labels = store::labels(texts.cannot_find, "Ошибка выполнения: ", "Ошибка чтения: ");
    match sql::read_first(reply, &labels) {
        Err(e) => fail(e),
        Ok(None) => refuse(texts.not_found),
        Ok(Some(row)) => {
            assert(sql::row_fits(seq![db::text_at(0)], row@));
            assert(sql::cell_fits(sql::ColumnKind::Text, row@[0]));
            match sql::read_text(&row.cells[0], "Ошибка чтения id: ") {
                Err(e) => fail(e),
                Ok(id) => DbStep::Ask(room_task(room, id.as_str(), action)),
            }
        },
    }
}

/// The history goes on with the first of the rooms that are left.
pub open spec fn next_room(
    room: Room,
    rest: Seq<Seq<char>>,
    found: Seq<StoredMessage<Seq<char>>>,
) -> db::StepView {
    if rest.len() == 0 {
        done(DbValue::Messages(found))
    } else {
        db::StepView::Ask(
            store::room_page_of(
                room,
                rest[0],
                store::HISTORY_LIMIT,
                0,
                DbOp::HistoryRoom { room, name: rest[0], rest: rest.skip(1), found },
            ),
        )
    }
}

fn go_to_next_room(
    room: Room,
    rest: Vec<String>,
    found: Vec<StoredMessage<String>>,
) -> (r: DbStep)
    ensures
        r@ == next_room(room, text::views(rest@), text::views(found@)),
{
    if rest.len() == 0 {
        finish(DbValue::Messages(found))
    } else {
        let mut rest = rest;
        let ghost all = text::views(rest@);
        let name = rest.remove(0);
        assert(text::views(rest@) =~= all.skip(1));
        let op: Op = DbOp::HistoryRoom { room, name: name.clone(), rest, found };
        DbStep::Ask(store::room_page(room, name.as_str(), store::HISTORY_LIMIT, 0, op))
    }
}

/// The history starts, once the rooms are known.
pub open spec fn history_started(room: Room, reply: sql::DbReplyView) -> db::StepView {
    match rows::lines_of(
        reply,
        store::unlabelled(),
        LineReader::Name { label: Seq::empty() },
    ) {
        Err(e) => failed(e),
        Ok(names) => next_room(room, names, Seq::empty()),
    }
}

fn start_history(room: Room, reply: &DbReply) -> (r: DbStep)
    requires
        rows::reads(reply@, seq![db::text_at(0)]),
    ensures
        r@ == history_started(room, reply@),
{
    let labels = store::no_labels();
    let reader: LineReader<String> = LineReader::Name { label: String::new() };
    match rows::read_lines(reply, &labels, &reader) {
        Err(e) => fail(e),
        Ok(names) => {
            let found: Vec<StoredMessage<String>> = Vec::new();
            assert(text::views(found@) =~= Seq::<StoredMessage<Seq<char>>>::empty());
            go_to_next_room(room, names, found)
        },
    }
}

/// The history takes in the messages of one room.
pub open spec fn history_continued(
    room: Room,
    name: Seq<char>,
    rest: Seq<Seq<char>>,
    found: Seq<StoredMessage<Seq<char>>>,
    reply: sql::DbReplyView,
) -> db::StepView {
    match rows::messages_of(reply, session_labels(), MessageReader::Room { name }) {
        Err(e) => failed(e),
        Ok(messages) => next_room(room, rest, found + messages),
    }
}

fn continue_history(
    room: Room,
    name: String,
    rest: Vec<String>,
    found: Vec<StoredMessage<String>>,
    reply: &DbReply,
) -> (r: DbStep)
    requires
        rows::reads(reply@, seq![db::text_at(0), db::text_at(1), db::integer_at(2)]),
    ensures
        r@ == history_continued(room, name@, text::views(rest@), text::views(found@), reply@),
{
    let labels = store::labels("Ошибка подготовки: ", "Ошибка выполнения: ", "Ошибка чтения: ");
    let reader: MessageReader<String> = MessageReader::Room { name };
    match rows::read_messages(reply, &labels, &reader) {
        Err(e) => fail(e),
        Ok(messages) => {
            let mut found = found;
            let mut messages = messages;
            let ghost before = found@;
            let ghost new = messages@;
            found.append(&mut messages);
            assert(text::views(found@) =~= text::views(before) + text::views(new));
            go_to_next_room(room, rest, found)
        },
    }
}

/// What a failed look-up of a profile is reported with.
pub open spec fn profile_labels() -> Labels<Seq<char>> {
    store::labelled(
        "Ошибка подготовки запроса: "@,
        "Ошибка выполнения запроса: "@,
        "Ошибка чтения результата: "@,
    )
}

/// What a user sees of the own account.
pub open spec fn profile_found(reply: sql::DbReplyView) -> db::StepView {
    match sql::first_row(reply, profile_labels()) {
        Err(e) => failed(e),
        Ok(None) => failed("Пользователь не найден"@),
        Ok(Some(row)) => {
            let username = sql::cell_text(row[0], "Ошибка чтения username: "@);
            let phone = sql::cell_text(row[1], "Ошибка чтения phone: "@);
            let first_name = sql::cell_text(row[2], "Ошибка чтения first_name: "@);
            let last_name = sql::cell_text(row[3], "Ошибка чтения last_name: "@);
            let display_name = sql::cell_text(row[4], "Ошибка чтения display_name: "@);
            match (username, phone, first_name, last_name, display_name) {
                (Err(e), _, _, _, _) => failed(e),
                (_, Err(e), _, _, _) => failed(e),
                (_, _, Err(e), _, _) => failed(e),
                (_, _, _, Err(e), _) => failed(e),
                (_, _, _, _, Err(e)) => failed(e),
                (Ok(username), Ok(phone), Ok(first_name), Ok(last_name), Ok(display_name)) => done(
                    DbValue::Profile(
                        Profile { username, phone, first_name, last_name, display_name },
                    ),
                ),
            }
        },
    }
}

fn find_profile(reply: &DbReply) -> (r: DbStep)
    requires
        rows::reads(
            reply@,
            seq![db::text_at(0), db::text_at(1), db::text_at(2), db::text_at(3), db::text_at(4)],
        ),
    ensures
        r@ == profile_found(reply@),
{
    let labels = store::labels(
        "Ошибка подготовки запроса: ",
        "Ошибка выполнения запроса: ",
        "Ошибка чтения результата: ",
    );
    match sql::read_first(reply, &labels) {
        Err(e) => fail(e),
        Ok(None) => refuse("Пользователь не найден"),
        Ok(Some(row)) => {
            assert(sql::row_fits(
                seq![db::text_at(0), db::text_at(1), db::text_at(2), db::text_at(3), db::text_at(4)],
                row@,
            ));
            assert(forall|i: int|
                0 <= i < 5 ==> sql::cell_fits(sql::ColumnKind::Text, #[trigger] row@[i]));
            let username = match sql::read_text(&row.cells[0], "Ошибка чтения username: ") {
                Ok(s) => s,
                Err(e) => return fail(e),
            };
            let phone = match sql::read_text(&row.cells[1], "Ошибка чтения phone: ") {
                Ok(s) => s,
                Err(e) => return fail(e),
            };
            let first_name = match sql::read_text(&row.cells[2], "Ошибка чтения first_name: ") {
                Ok(s) => s,
                Err(e) => return fail(e),
            };
            let last_name = match sql::read_text(&row.cells[3], "Ошибка чтения last_name: ") {
                Ok(s) => s,
                Err(e) => return fail(e),
            };
            let display_name = match sql::read_text(
                &row.cells[4],
                "Ошибка чтения display_name: ",
            ) {
                Ok(s) => s,
                Err(e) => return fail(e),
            };
            finish(
                DbValue::Profile(Profile { username, phone, first_name, last_name, display_name }),
            )
        },
    }
}

/// What a failed change of a user name is reported with.
pub open spec fn username_labels() -> Labels<Seq<char>> {
    store::labelled(
        "Ошибка подготовки запроса: "@,
        "Ошибка выполнения запроса: "@,
        "Ошибка чтения: "@,
    )
}

/// A user name is changed only if the new one is free.
pub open spec fn new_username_checked(
    old_username: Seq<char>,
    new_username: Seq<char>,
    reply: sql::DbReplyView,
) -> db::StepView {
    match sql::first_row(reply, username_labels()) {
        Err(e) => failed(e),
        Ok(Some(_)) => failed("Username уже занят"@),
        Ok(None) => db::StepView::Ask(
            store::query_of(
                statements::SELECT_USER@,
                seq![store::param(old_username)],
                DbOp::OldUsername { old_username, new_username },
            ),
        ),
    }
}

fn check_new_username(old_username: String, new_username: String, reply: &DbReply) -> (r: DbStep)
    requires
        sql::answers_query(reply@),
    ensures
        r@ == new_username_checked(old_username@, new_username@, reply@),
{
    let labels = store::labels(
        "Ошибка подготовки запроса: ",
        "Ошибка выполнения запроса: ",
        "Ошибка чтения: ",
    );
    match sql::read_first(reply, &labels) {
        Err(e) => fail(e),
        Ok(Some(_)) => refuse("Username уже занят"),
        Ok(None) => {
            let params = store::params1(old_username.as_str());
            DbStep::Ask(
                store::query(
                    statements::SELECT_USER,
                    params,
                    DbOp::OldUsername { old_username, new_username },
                ),
            )
        },
    }
}

/// A user name is changed only if there is a user of the old one.
pub open spec fn old_username_checked(
    old_username: Seq<char>,
    new_username: Seq<char>,
    reply: sql::DbReplyView,
) -> db::StepView {
    match sql::first_row(reply, username_labels()) {
        Err(e) => failed(e),
        Ok(None) => failed("Пользователь не найден"@),
        Ok(Some(_)) => db::StepView::Ask(
            store::statement_of(
                statements::UPDATE_USERNAME@,
                seq![store::param(new_username), store::param(old_username)],
                DbOp::Statement { label: "Ошибка обновления username: "@ },
            ),
        ),
    }
}

fn check_old_username(old_username: &str, new_username: &str, reply: &DbReply) -> (r: DbStep)
    requires
        sql::answers_query(reply@),
    ensures
        r@ == old_username_checked(old_username@, new_username@, reply@),
{
    let labels = store::labels(
        "Ошибка подготовки запроса: ",
        "Ошибка выполнения запроса: ",
        "Ошибка чтения: ",
    );
    match sql::read_first(reply, &labels) {
        Err(e) => fail(e),
        Ok(None) => refuse("Пользователь не найден"),
        Ok(Some(_)) => DbStep::Ask(
            store::statement(
                statements::UPDATE_USERNAME,
                store::params2(new_username, old_username),
                DbOp::Statement { label: "Ошибка обновления username: ".to_owned() },
            ),
        ),
    }
}

/// The task of bringing a table up to date.
pub open spec fn fix_table_of(table: usize, again: bool) -> db::TaskView {
    store::statement_of(
        statements::fix_of(table),
        Seq::empty(),
        DbOp::FixTable { table, again },
    )
}

/// The task of making an index.
pub open spec fn make_index_of(index: usize, again: bool) -> db::TaskView {
    store::statement_of(
        statements::index_of(index),
        Seq::empty(),
        DbOp::MakeIndex { index, again },
    )
}

fn plain_statement(sql: &'static str, op: Op) -> (r: DbTask)
    ensures
        r@ == store::statement_of(sql@, Seq::empty(), op@),
{
    let params: Vec<SqlValue<String>> = Vec::new();
    assert(text::views(params@) =~= Seq::<SqlValue<Seq<char>>>::empty());
    store::statement(sql, params, op)
}

/// The tables are gone through one by one, then the indexes.
pub open spec fn after_table(table: usize, again: bool) -> db::StepView {
    db::StepView::Ask(
        if table + 1 < statements::TABLES {
            store::check_table_of((table + 1) as usize, again)
        } else {
            make_index_of(0, again)
        },
    )
}

fn leave_table(table: usize, again: bool) -> (r: DbStep)
    requires
        table < statements::TABLES,
    ensures
        r@ == after_table(table, again),
{
    if table + 1 < statements::TABLES {
        DbStep::Ask(store::check_table(table + 1, again))
    } else {
        DbStep::Ask(
            plain_statement(
                statements::index_statement(0),
                DbOp::MakeIndex { index: 0, again },
            ),
        )
    }
}

/// A table that lacks its newest column is brought up to date.
pub open spec fn table_checked(
    table: usize,
    again: bool,
    reply: sql::DbReplyView,
) -> db::StepView {
    match rows::column_of(reply, statements::newest_of(table)) {
        Err(e) => failed(e),
        Ok(true) => after_table(table, again),
        Ok(false) => db::StepView::Ask(fix_table_of(table, again)),
    }
}

fn check_columns(table: usize, again: bool, reply: &DbReply) -> (r: DbStep)
    requires
        table < statements::TABLES,
        rows::reads(reply@, seq![db::text_at(1)]),
    ensures
        r@ == table_checked(table, again, reply@),
{
    match rows::read_column(reply, statements::newest(table)) {
        Err(e) => fail(e),
        Ok(has) => {
            if has {
                leave_table(table, again)
            } else {
                DbStep::Ask(
                    plain_statement(statements::fix(table), DbOp::FixTable { table, again }),
                )
            }
        },
    }
}

/// The task of adding the newest column to a table with rows.
pub open spec fn add_column_of(table: usize, again: bool, why: Seq<char>) -> db::TaskView {
    db::TaskView {
        request: sql::DbRequestView::Batch { sql: statements::add_of(table) },
        op: DbOp::AddColumn { table, again, why },
    }
}

/// The task of undoing what was done of that.
pub open spec fn undo_column_of(why: Seq<char>) -> db::TaskView {
    store::statement_of(statements::ROLLBACK@, Seq::empty(), DbOp::UndoColumn { why })
}

/// What a table lacked has been added. Where that failed, and the table may have rows,
/// it is added in the way that they allow.
pub open spec fn table_fixed(table: usize, again: bool, reply: sql::DbReplyView) -> db::StepView {
    match sql::executed(reply, Seq::empty()) {
        Err(e) => if table < statements::FILLED_TABLES {
            db::StepView::Ask(add_column_of(table, again, e))
        } else {
            failed(e)
        },
        Ok(()) => after_table(table, again),
    }
}

fn fix_done(table: usize, again: bool, reply: &DbReply) -> (r: DbStep)
    requires
        table < statements::TABLES,
        reply@ is Done || reply@ is Failed,
    ensures
        r@ == table_fixed(table, again, reply@),
{
    let none = String::new();
    match sql::execute_result(reply, none.as_str()) {
        Err(e) => {
            if table < statements::FILLED_TABLES {
                DbStep::Ask(
                    DbTask {
                        request: DbRequest::Batch { sql: statements::add_filled(table) },
                        op: DbOp::AddColumn { table, again, why: e },
                    },
                )
            } else {
                fail(e)
            }
        },
        Ok(()) => leave_table(table, again),
    }
}

/// The newest column has been added to a table with rows. Where that failed too,
/// nothing of it stays.
pub open spec fn column_added(
    table: usize,
    again: bool,
    why: Seq<char>,
    reply: sql::DbReplyView,
) -> db::StepView {
    match sql::executed(reply, Seq::empty()) {
        Err(_) => db::StepView::Ask(undo_column_of(why)),
        Ok(()) => after_table(table, again),
    }
}

fn add_done(table: usize, again: bool, why: String, reply: &DbReply) -> (r: DbStep)
    requires
        table < statements::TABLES,
        reply@ is Done || reply@ is Failed,
    ensures
        r@ == column_added(table, again, why@, reply@),
{
    match reply {
        DbReply::Done => leave_table(table, again),
        _ => DbStep::Ask(plain_statement(statements::ROLLBACK, DbOp::UndoColumn { why })),
    }
}

/// An index has been made. After the last one the indexes are made once more, or
/// all is done.
pub open spec fn index_made(index: usize, again: bool, reply: sql::DbReplyView) -> db::StepView {
    match sql::executed(reply, Seq::empty()) {
        Err(e) => failed(e),
        Ok(()) => if index + 1 < statements::INDEXES {
            db::StepView::Ask(make_index_of((index + 1) as usize, again))
        } else if again {
            db::StepView::Ask(make_index_of(0, false))
        } else {
            done(DbValue::Unit)
        },
    }
}

fn index_done(index: usize, again: bool, reply: &DbReply) -> (r: DbStep)
    requires
        index < statements::INDEXES,
        reply@ is Done || reply@ is Failed,
    ensures
        r@ == index_made(index, again, reply@),
{
    let none = String::new();
    match sql::execute_result(reply, none.as_str()) {
        Err(e) => fail(e),
        Ok(()) => {
            if index + 1 < statements::INDEXES {
                DbStep::Ask(
                    plain_statement(
                        statements::index_statement(index + 1),
                        DbOp::MakeIndex { index: index + 1, again },
                    ),
                )
            } else if again {
                DbStep::Ask(
                    plain_statement(
                        statements::index_statement(0),
                        DbOp::MakeIndex { index: 0, again: false },
                    ),
                )
            } else {
                finish(DbValue::Unit)
            }
        },
    }
}

/// The tables exist. They are now brought up to date.
pub open spec fn tables_made(reply: sql::DbReplyView) -> db::StepView {
    match sql::executed(reply, "Ошибка создания таблиц: "@) {
        Err(e) => failed(e),
        Ok(()) => db::StepView::Ask(store::check_table_of(0, true)),
    }
}

/// The step that follows the reply.
pub open spec fn resumed(op: db::OpView, reply: sql::DbReplyView) -> db::StepView {
    match op {
        DbOp::Statement { label } => ended(sql::executed(reply, label), DbValue::Unit),
        DbOp::Exists { labels } => existence(labels, reply),
        DbOp::Names { labels, column } => listed(
            rows::lines_of(reply, labels, LineReader::Name { label: column }),
        ),
        DbOp::RegisterUser { user_id } => ended(
            sql::executed(reply, "Ошибка регистрации: "@),
            DbValue::Text(user_id),
        ),
        DbOp::Login { password } => logged_in(password, reply),
        DbOp::UsernameById => username_found(reply),
        DbOp::CreateSession { token } => ended(
            sql::executed(reply, "Ошибка создания сессии: "@),
            DbValue::Text(token),
        ),
        DbOp::CheckSession { token } => session_found(token, reply),
        DbOp::TouchSession { user_id, username } => ended(
            sql::executed(reply, "Ошибка обновления last_seen: "@),
            DbValue::Account { user_id, username },
        ),
        DbOp::UserMessages => history(
            rows::messages_of(reply, session_labels(), MessageReader::Private),
        ),
        DbOp::RoomMessages { name } => history(
            rows::messages_of(reply, session_labels(), MessageReader::Room { name }),
        ),
        DbOp::CreateRoom { room, id, creator } => room_made(room, id, creator, reply),
        DbOp::FindRoom { room, action } => room_found(room, action, reply),
        DbOp::HistoryNames { room } => history_started(room, reply),
        DbOp::HistoryRoom { room, name, rest, found } => history_continued(
            room,
            name,
            rest,
            found,
            reply,
        ),
        DbOp::ChannelLines => listed(
            rows::lines_of(reply, store::unlabelled(), LineReader::Channel),
        ),
        DbOp::UserLines => listed(rows::lines_of(reply, store::unlabelled(), LineReader::User)),
        DbOp::GetProfile => profile_found(reply),
        DbOp::NewUsername { old_username, new_username } => new_username_checked(
            old_username,
            new_username,
            reply,
        ),
        DbOp::OldUsername { old_username, new_username } => old_username_checked(
            old_username,
            new_username,
            reply,
        ),
        DbOp::InitTables => tables_made(reply),
        DbOp::CheckTable { table, again } => table_checked(table, again, reply),
        DbOp::FixTable { table, again } => table_fixed(table, again, reply),
        DbOp::AddColumn { table, again, why } => column_added(table, again, why, reply),
        DbOp::UndoColumn { why } => failed(why),
        DbOp::MakeIndex { index, again } => index_made(index, again, reply),
    }
}

impl AppState {
    /// Goes on with an operation after the reply to its request.
    pub fn resume(task: DbTask, reply: &DbReply) -> (r: DbStep)
        requires
            task@.wf(),
            sql::fits(task@.request, reply@),
        ensures
            r@ == resumed(task@.op, reply@),
            r@.wf(),
    {
        proof {
            law_resumed(task@, reply@);
        }
        match task.op {
            DbOp::Statement { label } => end(reply, label.as_str(), DbValue::Unit),
            DbOp::Exists { labels } => exists_row(&labels, reply),
            DbOp::Names { labels, column } => list(
                reply,
                &labels,
                &LineReader::Name { label: column },
            ),
            DbOp::RegisterUser { user_id } => end(
                reply,
                "Ошибка регистрации: ",
                DbValue::Text(user_id),
            ),
            DbOp::Login { password } => log_in(password.as_str(), reply),
            DbOp::UsernameById => find_username(reply),
            DbOp::CreateSession { token } => end(
                reply,
                "Ошибка создания сессии: ",
                DbValue::Text(token),
            ),
            DbOp::CheckSession { token } => find_session(token.as_str(), reply),
            DbOp::TouchSession { user_id, username } => end(
                reply,
                "Ошибка обновления last_seen: ",
                DbValue::Account { user_id, username },
            ),
            DbOp::UserMessages => list_messages(reply, &MessageReader::Private),
            DbOp::RoomMessages { name } => list_messages(reply, &MessageReader::Room { name }),
            DbOp::CreateRoom { room, id, creator } => make_room(
                room,
                id.as_str(),
                creator.as_str(),
                reply,
            ),
            DbOp::FindRoom { room, action } => use_room(room, &action, reply),
            DbOp::HistoryNames { room } => start_history(room, reply),
            DbOp::HistoryRoom { room, name, rest, found } => continue_history(
                room,
                name,
                rest,
                found,
                reply,
            ),
            DbOp::ChannelLines => list(reply, &store::no_labels(), &LineReader::Channel),
            DbOp::UserLines => list(reply, &store::no_labels(), &LineReader::User),
            DbOp::GetProfile => find_profile(reply),
            DbOp::NewUsername { old_username, new_username } => check_new_username(
                old_username,
                new_username,
                reply,
            ),
            DbOp::OldUsername { old_username, new_username } => check_old_username(
                old_username.as_str(),
                new_username.as_str(),
                reply,
            ),
            DbOp::InitTables => match sql::execute_result(reply, "Ошибка создания таблиц: ") {
                Err(e) => fail(e),
                Ok(()) => DbStep::Ask(store::check_table(0, true)),
            },
            DbOp::CheckTable { table, again } => check_columns(table, again, reply),
            DbOp::FixTable { table, again } => fix_done(table, again, reply),
            DbOp::AddColumn { table, again, why } => add_done(table, again, why, reply),
            DbOp::UndoColumn { why } => fail(why),
            DbOp::MakeIndex { index, again } => index_done(index, again, reply),
        }
    }
}

/// How many more stages the operation can have.
pub open spec fn stages(op: db::OpView) -> nat {
    match op {
        DbOp::CheckSession { .. } => 1,
        DbOp::CreateRoom { .. } => 1,
        DbOp::FindRoom { .. } => 1,
        DbOp::OldUsername { .. } => 1,
        DbOp::NewUsername { .. } => 2,
        DbOp::HistoryNames { .. } => 1,
        DbOp::MakeIndex { index, again } => (statements::INDEXES - index + if again {
            statements::INDEXES as int
        } else {
            0
        }) as nat,
        DbOp::AddColumn { table, .. } => (13 + 3 * (statements::TABLES - table)) as nat,
        DbOp::FixTable { table, .. } => (14 + 3 * (statements::TABLES - table)) as nat,
        DbOp::CheckTable { table, .. } => (15 + 3 * (statements::TABLES - table)) as nat,
        DbOp::InitTables => 28,
        _ => 0,
    }
}

/// How many rooms the operation has still to look into.
pub open spec fn rooms_left(op: db::OpView) -> nat {
    match op {
        DbOp::HistoryRoom { rest, .. } => rest.len(),
        _ => 0,
    }
}

/// What an operation starts with can be answered, and the operation gives the sort of
/// value that is asked of it.
pub proof fn law_started(call: DbCall<Seq<char>>, step: db::StepView)
    requires
        store::begun(call, step),
    ensures
        step.wf(),
        step matches db::StepView::Ask(task) ==> db::op_kind(task.op) == db::call_kind(call),
        step matches db::StepView::Done(r) ==> r is Err,
{
}

/// Each reply brings an operation closer to its end, the next request, where there
/// is one, can again be answered, and what comes out in the end is of the sort that
/// the operation gives.
pub proof fn law_resumed(task: db::TaskView, reply: sql::DbReplyView)
    requires
        task.wf(),
        sql::fits(task.request, reply),
    ensures
        resumed(task.op, reply).wf(),
        resumed(task.op, reply) matches db::StepView::Ask(next) ==> {
            &&& stages(next.op) < stages(task.op) || (stages(next.op) == stages(task.op)
                && rooms_left(next.op) < rooms_left(task.op))
            &&& db::op_kind(next.op) == db::op_kind(task.op)
        },
        resumed(task.op, reply) matches db::StepView::Done(Ok(value)) ==> db::kind_of(value)
            == db::op_kind(task.op),
{
}

/// The text of a request.
pub open spec fn sql_of(request: sql::DbRequestView) -> Seq<char> {
    match request {
        sql::DbRequestView::Execute { sql, .. } => sql,
        sql::DbRequestView::Batch { sql } => sql,
        sql::DbRequestView::Query { sql, .. } => sql,
    }
}

/// What users write never becomes part of a statement: whatever the arguments of an
/// operation and the replies to it are, each of its requests is one of the fixed
/// statements, and everything else goes into the parameters.
pub proof fn law_fixed_statements(
    call: DbCall<Seq<char>>,
    step: db::StepView,
    task: db::TaskView,
    reply: sql::DbReplyView,
)
    requires
        store::begun(call, step),
        task.wf(),
        sql::fits(task.request, reply),
    ensures
        step matches db::StepView::Ask(first) ==> statements::is_statement(sql_of(first.request)),
        resumed(task.op, reply) matches db::StepView::Ask(next) ==> statements::is_statement(
            sql_of(next.request),
        ),
{
}

/// Whether the operation only reads.
pub open spec fn only_reads(op: db::OpView) -> bool {
    ||| op is Exists
    ||| op is Names
    ||| op is Login
    ||| op is UsernameById
    ||| op is UserMessages
    ||| op is RoomMessages
    ||| op is HistoryNames
    ||| op is HistoryRoom
    ||| op is ChannelLines
    ||| op is UserLines
    ||| op is GetProfile
}

/// An operation that only reads writes nothing: each of its requests is a query, to
/// the end.
pub proof fn law_reading_writes_nothing(task: db::TaskView, reply: sql::DbReplyView)
    requires
        task.wf(),
        only_reads(task.op),
        sql::fits(task.request, reply),
    ensures
        task.request is Query,
        resumed(task.op, reply) matches db::StepView::Ask(next) ==> only_reads(next.op)
            && next.request is Query,
{
}

/// Whoever has registered can log in: where the database gives back the identifier
/// and the hash that the registration put into it, the password is accepted.
pub proof fn law_register_then_login(
    username: Seq<char>,
    phone: Seq<char>,
    password: Seq<char>,
    first_name: Option<Seq<char>>,
    last_name: Option<Seq<char>>,
    task: db::TaskView,
)
    requires
        store::registers(
            username,
            phone,
            password,
            first_name,
            last_name,
            db::StepView::Ask(task),
        ),
    ensures
        exists|user_id: Seq<char>, hash: Seq<char>|
            {
                &&& task == #[trigger] store::registration_of(
                    user_id,
                    username,
                    phone,
                    hash,
                    first_name,
                    last_name,
                )
                &&& resumed(task.op, sql::DbReplyView::Done) == done(DbValue::Text(user_id))
                &&& logged_in(
                    password,
                    sql::DbReplyView::Rows {
                        rows: seq![seq![sql::Cell::Text(user_id), sql::Cell::Text(hash)]],
                        broken: None,
                    },
                ) == done(DbValue::Text(user_id))
            },
{
    let (user_id, hash) = choose|user_id: Seq<char>, hash: Result<Seq<char>, Seq<char>>|
        {
            &&& identity::is_id(user_id)
            &&& hash matches Ok(h) ==> identity::bcrypt_verification(password, h) == Ok::<
                bool,
                Seq<char>,
            >(true)
            &&& db::StepView::Ask(task) == #[trigger] store::register_step(
                user_id,
                username,
                phone,
                hash,
                first_name,
                last_name,
            )
        };
    assert(hash is Ok);
    assert(task == store::registration_of(
        user_id,
        username,
        phone,
        hash->Ok_0,
        first_name,
        last_name,
    ));
}

/// Where there is no room of the name, joining it, leaving it and writing to it are
/// refused, and nothing is written.
pub proof fn law_missing_room(
    room: Room,
    action: RoomAction<Seq<char>>,
    reply: sql::DbReplyView,
)
    requires
        sql::first_row(reply, room_labels(room)) matches Ok(None),
    ensures
        resumed(DbOp::FindRoom { room, action }, reply) == failed(
            statements::room_texts_of(room).not_found,
        ),
{
}

/// A name that is taken stays with whoever has it: the change is refused, and nothing
/// is written.
pub proof fn law_taken_username(
    old_username: Seq<char>,
    new_username: Seq<char>,
    reply: sql::DbReplyView,
)
    requires
        sql::first_row(reply, username_labels()) matches Ok(Some(_)),
    ensures
        resumed(DbOp::NewUsername { old_username, new_username }, reply) == failed(
            "Username уже занят"@,
        ),
{
}

/// A table is altered exactly if it lacks its newest column.
pub proof fn law_migration(table: usize, again: bool, reply: sql::DbReplyView)
    requires
        table < statements::TABLES,
        rows::column_of(reply, statements::newest_of(table)) is Ok,
    ensures
        resumed(DbOp::CheckTable { table, again }, reply) == db::StepView::Ask(
            fix_table_of(table, again),
        ) <==> rows::column_of(reply, statements::newest_of(table)) == Ok::<bool, Seq<char>>(
            false,
        ),
{
}

/// What a history comes to, where `answer` gives the reply to the query for the
/// messages of a room.
pub open spec fn history_outcome(
    room: Room,
    rest: Seq<Seq<char>>,
    found: Seq<StoredMessage<Seq<char>>>,
    answer: spec_fn(Seq<char>) -> sql::DbReplyView,
) -> db::Outcome
    decreases rest.len(),
{
    match next_room(room, rest, found) {
        db::StepView::Done(r) => r,
        db::StepView::Ask(_) => if rest.len() == 0 {
            arbitrary()
        } else {
            match resumed(
                DbOp::HistoryRoom { room, name: rest[0], rest: rest.skip(1), found },
                answer(rest[0]),
            ) {
                db::StepView::Done(r) => r,
                db::StepView::Ask(next) => match next.op {
                    DbOp::HistoryRoom { found: more, .. } => history_outcome(
                        room,
                        rest.skip(1),
                        more,
                        answer,
                    ),
                    _ => arbitrary(),
                },
            }
        },
    }
}

/// The messages of the rooms, one room after the other.
pub open spec fn in_turn(
    names: Seq<Seq<char>>,
    messages: spec_fn(Seq<char>) -> Seq<StoredMessage<Seq<char>>>,
) -> Seq<StoredMessage<Seq<char>>>
    decreases names.len(),
{
    if names.len() == 0 {
        Seq::empty()
    } else {
        messages(names[0]) + in_turn(names.skip(1), messages)
    }
}

/// A history holds the messages of each room that the user is in, one room after the
/// other.
pub proof fn law_history(
    room: Room,
    names: Seq<Seq<char>>,
    found: Seq<StoredMessage<Seq<char>>>,
    answer: spec_fn(Seq<char>) -> sql::DbReplyView,
    messages: spec_fn(Seq<char>) -> Seq<StoredMessage<Seq<char>>>,
)
    requires
        forall|i: int|
            0 <= i < names.len() ==> rows::messages_of(
                answer(#[trigger] names[i]),
                session_labels(),
                MessageReader::Room { name: names[i] },
            ) == Ok::<Seq<StoredMessage<Seq<char>>>, Seq<char>>(messages(names[i])),
    ensures
        history_outcome(room, names, found, answer) == Ok::<db::AnswerView, Seq<char>>(
            DbValue::Messages(found + in_turn(names, messages)),
        ),
    decreases names.len(),
{
    if names.len() == 0 {
        assert(found + in_turn(names, messages) =~= found);
    } else {
        let rest = names.skip(1);
        let more = found + messages(names[0]);
        assert(names[0] == names[0]);
        assert forall|i: int| 0 <= i < rest.len() implies rows::messages_of(
            answer(#[trigger] rest[i]),
            session_labels(),
            MessageReader::Room { name: rest[i] },
        ) == Ok::<Seq<StoredMessage<Seq<char>>>, Seq<char>>(messages(rest[i])) by {
            assert(rest[i] == names[i + 1]);
        }
        law_history(room, rest, more, answer, messages);
        assert(more + in_turn(rest, messages) =~= found + in_turn(names, messages));
        if rest.len() == 0 {
            assert(in_turn(rest, messages) =~= Seq::empty());
        }
    }
}

/// Each message of a room has the room as its recipient.
pub proof fn law_room_messages(reply: sql::DbReplyView, name: Seq<char>)
    ensures
        reply is Rows ==> (rows::messages_of(
            reply,
            session_labels(),
            MessageReader::Room { name },
        ) matches Ok(messages) ==> forall|i: int|
            0 <= i < messages.len() ==> (#[trigger] messages[i]).recipient == name),
{
    if let sql::DbReplyView::Rows { rows, .. } = reply {
        lemma_room_recipients(rows, name);
    }
}

proof fn lemma_room_recipients(rows: Seq<Seq<sql::Cell<Seq<char>>>>, name: Seq<char>)
    ensures
        sql::collected(
            rows.map_values(rows::message_reader(MessageReader::Room { name })),
        ) matches Ok(messages) ==> forall|i: int|
            0 <= i < messages.len() ==> (#[trigger] messages[i]).recipient == name,
    decreases rows.len(),
{
    let reader = rows::message_reader(MessageReader::Room { name });
    let items = rows.map_values(reader);
    if rows.len() > 0 {
        lemma_room_recipients(rows.drop_last(), name);
        assert(items.drop_last() =~= rows.drop_last().map_values(reader));
        assert(items.last() == rows::message_of(MessageReader::Room { name }, rows.last()));
    }
}

} // verus!
