//! The first request of each operation on the database.

use crate::db;
use crate::db::{DbCall, DbOp, DbStep, DbTask, Op, Room, RoomAction};
use crate::identity;
use crate::rows;
use crate::sql;
use crate::sql::{Column, ColumnKind, DbRequest, Labels, SqlValue};
use crate::state::AppState;
use crate::statements;
use crate::text;
use vstd::prelude::*;

verus! {

broadcast use {text::lemma_views_push, text::lemma_views_len, text::lemma_views_index};

/// How many messages of a conversation are handed out at once.
pub const HISTORY_LIMIT: i64 = 100;

/// A text as a parameter.
pub open spec fn param(s: Seq<char>) -> SqlValue<Seq<char>> {
    SqlValue::Text(s)
}

pub(crate) fn params1(a: &str) -> (r: Vec<SqlValue<String>>)
    ensures
        text::views(r@) == seq![param(a@)],
{
    let mut r: Vec<SqlValue<String>> = Vec::new();
    r.push(SqlValue::Text(a.to_owned()));
    r
}

pub(crate) fn params2(a: &str, b: &str) -> (r: Vec<SqlValue<String>>)
    ensures
        text::views(r@) == seq![param(a@), param(b@)],
{
    let mut r = params1(a);
    r.push(SqlValue::Text(b.to_owned()));
    r
}

pub(crate) fn params3(a: &str, b: &str, c: &str) -> (r: Vec<SqlValue<String>>)
    ensures
        text::views(r@) == seq![param(a@), param(b@), param(c@)],
{
    let mut r = params2(a, b);
    r.push(SqlValue::Text(c.to_owned()));
    r
}

pub(crate) fn params4(a: &str, b: &str, c: &str, d: &str) -> (r: Vec<SqlValue<String>>)
    ensures
        text::views(r@) == seq![param(a@), param(b@), param(c@), param(d@)],
{
    let mut r = params3(a, b, c);
    r.push(SqlValue::Text(d.to_owned()));
    r
}

fn text_columns(n: usize) -> (r: Vec<Column>)
    ensures
        r@ == Seq::new(n as nat, |i: int| db::text_at(i as usize)),
{
    let mut r: Vec<Column> = Vec::new();
    let mut i: usize = 0;
    while i < n
        invariant
            i <= n,
            r@ == Seq::new(i as nat, |i: int| db::text_at(i as usize)),
        decreases n - i,
    {
        r.push(Column { index: i, kind: ColumnKind::Text });
        i = i + 1;
    }
    r
}

fn columns(op: &Op) -> (r: Vec<Column>)
    requires
        db::columns_of(op@) is Some,
    ensures
        Some(r@) == db::columns_of(op@),
{
    let r = match op {
        DbOp::Exists { .. } => text_columns(0),
        DbOp::NewUsername { .. } => text_columns(0),
        DbOp::OldUsername { .. } => text_columns(0),
        DbOp::Login { .. } => text_columns(2),
        DbOp::CheckSession { .. } => text_columns(2),
        DbOp::ChannelLines => text_columns(2),
        DbOp::UserLines => text_columns(3),
        DbOp::GetProfile => text_columns(5),
        DbOp::UserMessages => {
            let mut r = text_columns(3);
            r.push(Column { index: 3, kind: ColumnKind::Integer });
            r
        },
        DbOp::RoomMessages { .. } => {
            let mut r = text_columns(2);
            r.push(Column { index: 2, kind: ColumnKind::Integer });
            r
        },
        DbOp::HistoryRoom { .. } => {
            let mut r = text_columns(2);
            r.push(Column { index: 2, kind: ColumnKind::Integer });
            r
        },
        DbOp::CheckTable { .. } => {
            let mut r: Vec<Column> = Vec::new();
            r.push(Column { index: 1, kind: ColumnKind::Text });
            r
        },
        _ => text_columns(1),
    };
    assert(r@ =~= db::columns_of(op@)->Some_0);
    r
}

fn first_only(op: &Op) -> (r: bool)
    ensures
        r == db::reads_first(op@),
{
    match op {
        DbOp::Exists { .. } => true,
        DbOp::Login { .. } => true,
        DbOp::UsernameById => true,
        DbOp::CheckSession { .. } => true,
        DbOp::FindRoom { .. } => true,
        DbOp::GetProfile => true,
        DbOp::NewUsername { .. } => true,
        DbOp::OldUsername { .. } => true,
        _ => false,
    }
}

/// The task of running a query for what the operation reads.
pub open spec fn query_of(
    sql: Seq<char>,
    params: Seq<SqlValue<Seq<char>>>,
    op: db::OpView,
) -> db::TaskView {
    db::TaskView {
        request: sql::DbRequestView::Query {
            sql,
            params,
            columns: db::columns_of(op)->Some_0,
            first_only: db::reads_first(op),
        },
        op,
    }
}

/// Makes the task of running a query.
pub fn query(sql: &'static str, params: Vec<SqlValue<String>>, op: Op) -> (r: DbTask)
    requires
        db::columns_of(op@) is Some,
    ensures
        r@ == query_of(sql@, text::views(params@), op@),
{
    let columns = columns(&op);
    let first_only = first_only(&op);
    DbTask { request: DbRequest::Query { sql, params, columns, first_only }, op }
}

/// The task of executing a statement.
pub open spec fn statement_of(
    sql: Seq<char>,
    params: Seq<SqlValue<Seq<char>>>,
    op: db::OpView,
) -> db::TaskView {
    db::TaskView { request: sql::DbRequestView::Execute { sql, params }, op }
}

/// Makes the task of executing a statement.
pub fn statement(sql: &'static str, params: Vec<SqlValue<String>>, op: Op) -> (r: DbTask)
    ensures
        r@ == statement_of(sql@, text::views(params@), op@),
{
    DbTask { request: DbRequest::Execute { sql, params }, op }
}

/// What failures of a query are reported with.
pub open spec fn labelled(prepare: Seq<char>, run: Seq<char>, step: Seq<char>) -> Labels<
    Seq<char>,
> {
    Labels { prepare, run, step }
}

/// Says what failures of a query are reported with.
pub fn labels(prepare: &str, run: &str, step: &str) -> (r: Labels<String>)
    ensures
        r@ == labelled(prepare@, run@, step@),
{
    Labels { prepare: prepare.to_owned(), run: run.to_owned(), step: step.to_owned() }
}

/// The database's own words, with nothing before them.
pub open spec fn unlabelled() -> Labels<Seq<char>> {
    labelled(Seq::empty(), Seq::empty(), Seq::empty())
}

/// Says that failures are reported in the database's own words.
pub fn no_labels() -> (r: Labels<String>)
    ensures
        r@ == unlabelled(),
{
    Labels { prepare: String::new(), run: String::new(), step: String::new() }
}

/// The task of putting a new user into the database.
pub open spec fn registration_of(
    user_id: Seq<char>,
    username: Seq<char>,
    phone: Seq<char>,
    password_hash: Seq<char>,
    first_name: Option<Seq<char>>,
    last_name: Option<Seq<char>>,
) -> db::TaskView {
    statement_of(
        statements::INSERT_USER@,
        seq![
            param(user_id),
            param(username),
            param(phone),
            param(password_hash),
            param(text_or_empty(first_name)),
            param(text_or_empty(last_name)),
            param(rows::shown_name(username, first_name, last_name)),
        ],
        DbOp::RegisterUser { user_id },
    )
}

/// The text, or the empty one where there is none.
pub open spec fn text_or_empty(s: Option<Seq<char>>) -> Seq<char> {
    match s {
        Some(t) => t,
        None => Seq::empty(),
    }
}

pub(crate) fn or_empty(s: &Option<String>) -> (r: String)
    ensures
        r@ == text_or_empty(text::option_text(*s)),
{
    match s {
        Some(t) => t.clone(),
        None => String::new(),
    }
}

/// The first step of a registration, once the password has been hashed, or not.
pub open spec fn register_step(
    user_id: Seq<char>,
    username: Seq<char>,
    phone: Seq<char>,
    hash: Result<Seq<char>, Seq<char>>,
    first_name: Option<Seq<char>>,
    last_name: Option<Seq<char>>,
) -> db::StepView {
    match hash {
        Ok(hash) => db::StepView::Ask(
            registration_of(user_id, username, phone, hash, first_name, last_name),
        ),
        Err(e) => db::StepView::Done(Err("Ошибка хеширования: "@ + e)),
    }
}

/// Whether the step starts the registration of a user: under a fresh identifier and
/// with a hash that the password verifies against, or not at all where the password
/// could not be hashed.
pub open spec fn registers(
    username: Seq<char>,
    phone: Seq<char>,
    password: Seq<char>,
    first_name: Option<Seq<char>>,
    last_name: Option<Seq<char>>,
    step: db::StepView,
) -> bool {
    exists|user_id: Seq<char>, hash: Result<Seq<char>, Seq<char>>|
        {
            &&& identity::is_id(user_id)
            &&& hash matches Ok(h) ==> identity::bcrypt_verification(password, h) == Ok::<
                bool,
                Seq<char>,
            >(true)
            &&& step == #[trigger] register_step(
                user_id,
                username,
                phone,
                hash,
                first_name,
                last_name,
            )
        }
}

/// The task of opening a session.
pub open spec fn session_of(
    token: Seq<char>,
    user_id: Seq<char>,
    device_name: Seq<char>,
) -> db::TaskView {
    statement_of(
        statements::INSERT_SESSION@,
        seq![param(token), param(user_id), param(device_name)],
        DbOp::CreateSession { token },
    )
}

/// The task of storing a private message.
pub open spec fn message_of(
    message_id: Seq<char>,
    sender: Seq<char>,
    recipient: Seq<char>,
    content: Seq<char>,
    timestamp: i64,
) -> db::TaskView {
    statement_of(
        statements::INSERT_MESSAGE@,
        seq![
            param(message_id),
            param(sender),
            param(recipient),
            param(content),
            SqlValue::Integer(timestamp),
        ],
        DbOp::Statement { label: "Ошибка сохранения сообщения: "@ },
    )
}

/// The task of making a room.
pub open spec fn new_room_of(
    room: Room,
    id: Seq<char>,
    name: Seq<char>,
    creator: Seq<char>,
) -> db::TaskView {
    statement_of(
        statements::room_texts_of(room).insert,
        seq![param(id), param(name), param(creator)],
        DbOp::CreateRoom { room, id, creator },
    )
}

/// The task of finding a room, in order to do something with it.
pub open spec fn find_room_of(
    room: Room,
    name: Seq<char>,
    action: RoomAction<Seq<char>>,
) -> db::TaskView {
    query_of(
        statements::room_texts_of(room).find,
        seq![param(name)],
        DbOp::FindRoom { room, action },
    )
}

/// The task of listing the messages of a room, page by page.
pub open spec fn room_page_of(
    room: Room,
    name: Seq<char>,
    limit: i64,
    offset: i64,
    op: db::OpView,
) -> db::TaskView {
    query_of(
        statements::room_texts_of(room).messages,
        seq![param(name), SqlValue::Integer(limit), SqlValue::Integer(offset)],
        op,
    )
}

/// Makes the task of listing the messages of a room.
pub fn room_page(room: Room, name: &str, limit: i64, offset: i64, op: Op) -> (r: DbTask)
    requires
        db::columns_of(op@) is Some,
    ensures
        r@ == room_page_of(room, name@, limit, offset, op@),
{
    let mut params = params1(name);
    params.push(SqlValue::Integer(limit));
    params.push(SqlValue::Integer(offset));
    let task = query(statements::room_texts(room).messages, params, op);
    assert(text::views(params@) =~= seq![
        param(name@),
        SqlValue::Integer(limit),
        SqlValue::Integer(offset),
    ]);
    task
}

/// The task of asking whether a table is up to date.
pub open spec fn check_table_of(table: usize, again: bool) -> db::TaskView {
    query_of(statements::info_of(table), Seq::empty(), DbOp::CheckTable { table, again })
}

/// Makes the task of asking whether a table is up to date.
pub fn check_table(table: usize, again: bool) -> (r: DbTask)
    ensures
        r@ == check_table_of(table, again),
{
    let params: Vec<SqlValue<String>> = Vec::new();
    assert(text::views(params@) =~= Seq::<SqlValue<Seq<char>>>::empty());
    query(statements::info(table), params, DbOp::CheckTable { table, again })
}

/// The name that is shown once a user has set first and last name.
pub open spec fn full_name(first_name: Seq<char>, last_name: Seq<char>) -> Seq<char> {
    if last_name.len() == 0 {
        first_name
    } else {
        first_name + " "@ + last_name
    }
}

/// The request that an operation starts with, where nothing in it is left to chance.
/// `id` stands for the identifier that some operations make.
pub open spec fn task_of(call: DbCall<Seq<char>>, id: Seq<char>) -> db::TaskView {
    match call {
        DbCall::RegisterUser { .. } => arbitrary(),
        DbCall::LoginUserByPhone { phone, password } => query_of(
            statements::SELECT_PASSWORD@,
            seq![param(phone)],
            DbOp::Login { password },
        ),
        DbCall::UsernameById { user_id } => query_of(
            statements::SELECT_USERNAME@,
            seq![param(user_id)],
            DbOp::UsernameById,
        ),
        DbCall::CreateSession { user_id, device_name } => session_of(id, user_id, device_name),
        DbCall::CheckSession { token } => query_of(
            statements::SELECT_SESSION@,
            seq![param(token)],
            DbOp::CheckSession { token },
        ),
        DbCall::DeleteSession { token } => statement_of(
            statements::DELETE_SESSION@,
            seq![param(token)],
            DbOp::Statement { label: "Ошибка удаления сессии: "@ },
        ),
        DbCall::UserExists { username } => query_of(
            statements::SELECT_USER@,
            seq![param(username)],
            DbOp::Exists {
                labels: labelled(
                    "Ошибка запроса: "@,
                    "Ошибка выполнения: "@,
                    "Ошибка чтения: "@,
                ),
            },
        ),
        DbCall::SaveFcmToken { user_id, token, device_name } => statement_of(
            statements::INSERT_FCM@,
            seq![param(user_id), param(token), param(device_name)],
            DbOp::Statement { label: "Ошибка сохранения FCM-токена: "@ },
        ),
        DbCall::GetFcmTokens { username } => query_of(
            statements::SELECT_FCM@,
            seq![param(username)],
            DbOp::Names {
                labels: labelled(
                    "Ошибка запроса FCM: "@,
                    "Ошибка выполнения: "@,
                    "Ошибка чтения: "@,
                ),
                column: "Ошибка чтения токена: "@,
            },
        ),
        DbCall::StoreMessage { sender, recipient, content, timestamp } => message_of(
            id,
            sender,
            recipient,
            content,
            timestamp,
        ),
        DbCall::GetUserMessages { username, limit, offset } => query_of(
            statements::SELECT_MESSAGES@,
            seq![
                param(username),
                param(username),
                SqlValue::Integer(limit),
                SqlValue::Integer(offset),
            ],
            DbOp::UserMessages,
        ),
        DbCall::CreateRoom { room, name, creator } => new_room_of(room, id, name, creator),
        DbCall::JoinRoom { room, name, username } => find_room_of(
            room,
            name,
            RoomAction::Join { username },
        ),
        DbCall::LeaveRoom { room, name, username } => find_room_of(
            room,
            name,
            RoomAction::Leave { username },
        ),
        DbCall::GetMembers { room, name } => query_of(
            statements::room_texts_of(room).members,
            seq![param(name)],
            DbOp::Names {
                labels: labelled(
                    statements::room_texts_of(room).cannot_list,
                    "Ошибка выполнения: "@,
                    "Ошибка чтения: "@,
                ),
                column: "Ошибка чтения username: "@,
            },
        ),
        DbCall::IsMember { room, name, username } => query_of(
            statements::room_texts_of(room).is_member,
            seq![param(name), param(username)],
            DbOp::Exists {
                labels: labelled(
                    "Ошибка запроса: "@,
                    "Ошибка выполнения: "@,
                    "Ошибка чтения: "@,
                ),
            },
        ),
        DbCall::IsChannelOwner { name, username } => query_of(
            statements::SELECT_IS_OWNER@,
            seq![param(name), param(username)],
            DbOp::Exists { labels: unlabelled() },
        ),
        DbCall::StoreRoomMessage { room, name, sender, content, timestamp } => find_room_of(
            room,
            name,
            RoomAction::Store { message_id: id, sender, content, timestamp },
        ),
        DbCall::GetRoomMessages { room, name, limit, offset } => room_page_of(
            room,
            name,
            limit,
            offset,
            DbOp::RoomMessages { name },
        ),
        DbCall::RoomHistory { room, username } => query_of(
            statements::room_texts_of(room).mine,
            seq![param(username)],
            DbOp::HistoryNames { room },
        ),
        DbCall::ListGroups { username } => query_of(
            statements::SELECT_MY_GROUPS@,
            seq![param(username)],
            DbOp::Names { labels: unlabelled(), column: Seq::empty() },
        ),
        DbCall::ListChannels { username } => query_of(
            statements::SELECT_MY_CHANNELS_OWNERS@,
            seq![param(username)],
            DbOp::ChannelLines,
        ),
        DbCall::ListUsers => query_of(statements::SELECT_USERS@, Seq::empty(), DbOp::UserLines),
        DbCall::GetProfile { username } => query_of(
            statements::SELECT_PROFILE@,
            seq![param(username)],
            DbOp::GetProfile,
        ),
        DbCall::SetName { username, first, last } => statement_of(
            statements::UPDATE_NAME@,
            seq![param(first), param(last), param(full_name(first, last)), param(username)],
            DbOp::Statement { label: "Ошибка обновления имени: "@ },
        ),
        DbCall::SetDisplayName { username, display_name } => statement_of(
            statements::UPDATE_DISPLAY_NAME@,
            seq![param(display_name), param(username)],
            DbOp::Statement { label: "Ошибка обновления отображаемого имени: "@ },
        ),
        DbCall::SetUsername { old_username, new_username } => query_of(
            statements::SELECT_USER@,
            seq![param(new_username)],
            DbOp::NewUsername { old_username, new_username },
        ),
        DbCall::Migrate => check_table_of(0, false),
        DbCall::Init => db::TaskView {
            request: sql::DbRequestView::Batch { sql: statements::CREATE_TABLES@ },
            op: DbOp::InitTables,
        },
    }
}

/// The request that an operation starts with that makes no identifier.
pub open spec fn plain_task(call: DbCall<Seq<char>>) -> db::TaskView {
    task_of(call, Seq::empty())
}

/// Whether the task is what the operation starts with, under some fresh identifier
/// where it makes one.
pub open spec fn starts(call: DbCall<Seq<char>>, task: db::TaskView) -> bool {
    exists|id: Seq<char>| identity::is_id(id) && task == #[trigger] task_of(call, id)
}

impl AppState {
    /// Starts to register a user under a given identifier and password hash.
    pub fn registration(
        user_id: &str,
        username: &str,
        phone: &str,
        password_hash: &str,
        first_name: &Option<String>,
        last_name: &Option<String>,
    ) -> (r: DbTask)
        ensures
            r@ == registration_of(
                user_id@,
                username@,
                phone@,
                password_hash@,
                text::option_text(*first_name),
                text::option_text(*last_name),
            ),
    {
        let display_name = rows::display_name(username, first_name, last_name);
        let mut params = params4(user_id, username, phone, password_hash);
        params.push(SqlValue::Text(or_empty(first_name)));
        params.push(SqlValue::Text(or_empty(last_name)));
        params.push(SqlValue::Text(display_name));
        statement(
            statements::INSERT_USER,
            params,
            DbOp::RegisterUser { user_id: user_id.to_owned() },
        )
    }

    /// Starts to register a user under a given identifier, once the password has been
    /// hashed, or says that it has not.
    pub fn register_hashed(
        user_id: &str,
        username: &str,
        phone: &str,
        hash: Result<String, String>,
        first_name: &Option<String>,
        last_name: &Option<String>,
    ) -> (r: DbStep)
        ensures
            r@ == register_step(
                user_id@,
                username@,
                phone@,
                match hash {
                    Ok(h) => Ok(h@),
                    Err(e) => Err(e@),
                },
                text::option_text(*first_name),
                text::option_text(*last_name),
            ),
    {
        match hash {
            Ok(hash) => DbStep::Ask(
                Self::registration(
                    user_id,
                    username,
                    phone,
                    hash.as_str(),
                    first_name,
                    last_name,
                ),
            ),
            Err(e) => DbStep::Done(Err(text::concat2("Ошибка хеширования: ", e.as_str()))),
        }
    }

    /// Starts to register a user: hashes the password and makes the identifier.
    pub fn register_user(
        username: &str,
        phone: &str,
        password: &str,
        first_name: &Option<String>,
        last_name: &Option<String>,
    ) -> (r: DbStep)
        ensures
            registers(
                username@,
                phone@,
                password@,
                text::option_text(*first_name),
                text::option_text(*last_name),
                r@,
            ),
    {
        let hash = identity::bcrypt_hash(password);
        let user_id = identity::new_id();
        Self::register_hashed(user_id.as_str(), username, phone, hash, first_name, last_name)
    }

    /// Starts to log a user in.
    pub fn login_user_by_phone(phone: &str, password: &str) -> (r: DbTask)
        ensures
            r@ == plain_task(DbCall::LoginUserByPhone { phone: phone@, password: password@ }),
    {
        query(
            statements::SELECT_PASSWORD,
            params1(phone),
            DbOp::Login { password: password.to_owned() },
        )
    }

    /// Starts to look up the name of a user.
    pub fn username_by_id(user_id: &str) -> (r: DbTask)
        ensures
            r@ == plain_task(DbCall::UsernameById { user_id: user_id@ }),
    {
        query(statements::SELECT_USERNAME, params1(user_id), DbOp::UsernameById)
    }

    /// Starts to open a session under a given token.
    pub fn session(token: &str, user_id: &str, device_name: &str) -> (r: DbTask)
        ensures
            r@ == session_of(token@, user_id@, device_name@),
    {
        statement(
            statements::INSERT_SESSION,
            params3(token, user_id, device_name),
            DbOp::CreateSession { token: token.to_owned() },
        )
    }

    /// Starts to open a session under a fresh token.
    pub fn create_session(user_id: &str, device_name: &str) -> (r: DbTask)
        ensures
            starts(
                DbCall::CreateSession { user_id: user_id@, device_name: device_name@ },
                r@,
            ),
    {
        let token = identity::new_id();
        let task = Self::session(token.as_str(), user_id, device_name);
        assert(task@ == task_of(
            DbCall::CreateSession { user_id: user_id@, device_name: device_name@ },
            token@,
        ));
        task
    }

    /// Starts to look up whose session a token is.
    pub fn check_session(token: &str) -> (r: DbTask)
        ensures
            r@ == plain_task(DbCall::CheckSession { token: token@ }),
    {
        query(
            statements::SELECT_SESSION,
            params1(token),
            DbOp::CheckSession { token: token.to_owned() },
        )
    }

    /// Starts to end a session.
    pub fn delete_session(token: &str) -> (r: DbTask)
        ensures
            r@ == plain_task(DbCall::DeleteSession { token: token@ }),
    {
        statement(
            statements::DELETE_SESSION,
            params1(token),
            DbOp::Statement { label: "Ошибка удаления сессии: ".to_owned() },
        )
    }

    /// Starts to ask whether there is a user of this name.
    pub fn user_exists_by_username(username: &str) -> (r: DbTask)
        ensures
            r@ == plain_task(DbCall::UserExists { username: username@ }),
    {
        query(
            statements::SELECT_USER,
            params1(username),
            DbOp::Exists {
                labels: labels("Ошибка запроса: ", "Ошибка выполнения: ", "Ошибка чтения: "),
            },
        )
    }

    /// Starts to keep the push token of a device.
    pub fn save_fcm_token(user_id: &str, token: &str, device_name: &str) -> (r: DbTask)
        ensures
            r@ == plain_task(
                DbCall::SaveFcmToken {
                    user_id: user_id@,
                    token: token@,
                    device_name: device_name@,
                },
            ),
    {
        statement(
            statements::INSERT_FCM,
            params3(user_id, token, device_name),
            DbOp::Statement { label: "Ошибка сохранения FCM-токена: ".to_owned() },
        )
    }

    /// Starts to list the push tokens of a user.
    pub fn get_fcm_tokens_for_user(username: &str) -> (r: DbTask)
        ensures
            r@ == plain_task(DbCall::GetFcmTokens { username: username@ }),
    {
        query(
            statements::SELECT_FCM,
            params1(username),
            DbOp::Names {
                labels: labels("Ошибка запроса FCM: ", "Ошибка выполнения: ", "Ошибка чтения: "),
                column: "Ошибка чтения токена: ".to_owned(),
            },
        )
    }

    /// Starts to store a private message under a given identifier.
    pub fn message(
        message_id: &str,
        sender: &str,
        recipient: &str,
        content: &str,
        timestamp: i64,
    ) -> (r: DbTask)
        ensures
            r@ == message_of(message_id@, sender@, recipient@, content@, timestamp),
    {
        let mut params = params4(message_id, sender, recipient, content);
        params.push(SqlValue::Integer(timestamp));
        statement(
            statements::INSERT_MESSAGE,
            params,
            DbOp::Statement { label: "Ошибка сохранения сообщения: ".to_owned() },
        )
    }

    /// Starts to store a private message.
    pub fn store_message(sender: &str, recipient: &str, content: &str, timestamp: i64) -> (r: DbTask)
        ensures
            starts(
                DbCall::StoreMessage {
                    sender: sender@,
                    recipient: recipient@,
                    content: content@,
                    timestamp,
                },
                r@,
            ),
    {
        let id = identity::new_id();
        let task = Self::message(id.as_str(), sender, recipient, content, timestamp);
        assert(task@ == task_of(
            DbCall::StoreMessage {
                sender: sender@,
                recipient: recipient@,
                content: content@,
                timestamp,
            },
            id@,
        ));
        task
    }

    /// Starts to list the private messages that a user has sent or received.
    pub fn get_user_messages(username: &str, limit: i64, offset: i64) -> (r: DbTask)
        ensures
            r@ == plain_task(DbCall::GetUserMessages { username: username@, limit, offset }),
    {
        let mut params = params2(username, username);
        params.push(SqlValue::Integer(limit));
        params.push(SqlValue::Integer(offset));
        query(statements::SELECT_MESSAGES, params, DbOp::UserMessages)
    }

    /// Starts to make a room under a given identifier.
    pub fn new_room(room: Room, id: &str, name: &str, creator: &str) -> (r: DbTask)
        ensures
            r@ == new_room_of(room, id@, name@, creator@),
    {
        statement(
            statements::room_texts(room).insert,
            params3(id, name, creator),
            DbOp::CreateRoom { room, id: id.to_owned(), creator: creator.to_owned() },
        )
    }

    /// Starts to make a room under a fresh identifier.
    pub fn create_room(room: Room, name: &str, creator: &str) -> (r: DbTask)
        ensures
            starts(DbCall::CreateRoom { room, name: name@, creator: creator@ }, r@),
    {
        let id = identity::new_id();
        let task = Self::new_room(room, id.as_str(), name, creator);
        assert(task@ == task_of(
            DbCall::CreateRoom { room, name: name@, creator: creator@ },
            id@,
        ));
        task
    }

    /// Starts to make a group.
    pub fn create_group(name: &str, creator: &str) -> (r: DbTask)
        ensures
            starts(DbCall::CreateRoom { room: Room::Group, name: name@, creator: creator@ }, r@),
    {
        Self::create_room(Room::Group, name, creator)
    }

    /// Starts to make a channel.
    pub fn create_channel(name: &str, creator: &str) -> (r: DbTask)
        ensures
            starts(
                DbCall::CreateRoom { room: Room::Channel, name: name@, creator: creator@ },
                r@,
            ),
    {
        Self::create_room(Room::Channel, name, creator)
    }

    /// Starts to look for a room, in order to do something with it.
    pub fn find_room(room: Room, name: &str, action: RoomAction<String>) -> (r: DbTask)
        ensures
            r@ == find_room_of(room, name@, action@),
    {
        query(
            statements::room_texts(room).find,
            params1(name),
            DbOp::FindRoom { room, action },
        )
    }

    /// Starts to take a user into a group.
    pub fn join_group(group_name: &str, username: &str) -> (r: DbTask)
        ensures
            r@ == plain_task(
                DbCall::JoinRoom { room: Room::Group, name: group_name@, username: username@ },
            ),
    {
        Self::find_room(
            Room::Group,
            group_name,
            RoomAction::Join { username: username.to_owned() },
        )
    }

    /// Starts to subscribe a user to a channel.
    pub fn subscribe_channel(channel_name: &str, username: &str) -> (r: DbTask)
        ensures
            r@ == plain_task(
                DbCall::JoinRoom { room: Room::Channel, name: channel_name@, username: username@ },
            ),
    {
        Self::find_room(
            Room::Channel,
            channel_name,
            RoomAction::Join { username: username.to_owned() },
        )
    }

    /// Starts to let a user out of a group.
    pub fn leave_group(group_name: &str, username: &str) -> (r: DbTask)
        ensures
            r@ == plain_task(
                DbCall::LeaveRoom { room: Room::Group, name: group_name@, username: username@ },
            ),
    {
        Self::find_room(
            Room::Group,
            group_name,
            RoomAction::Leave { username: username.to_owned() },
        )
    }

    /// Starts to end a user's subscription of a channel.
    pub fn unsubscribe_channel(channel_name: &str, username: &str) -> (r: DbTask)
        ensures
            r@ == plain_task(
                DbCall::LeaveRoom { room: Room::Channel, name: channel_name@, username: username@ },
            ),
    {
        Self::find_room(
            Room::Channel,
            channel_name,
            RoomAction::Leave { username: username.to_owned() },
        )
    }

    /// Starts to list the users in a room.
    pub fn get_members(room: Room, name: &str) -> (r: DbTask)
        ensures
            r@ == plain_task(DbCall::GetMembers { room, name: name@ }),
    {
        let texts = statements::room_texts(room);
        query(
            texts.members,
            params1(name),
            DbOp::Names {
                labels: labels(texts.cannot_list, "Ошибка выполнения: ", "Ошибка чтения: "),
                column: "Ошибка чтения username: ".to_owned(),
            },
        )
    }

    /// Starts to list the members of a group.
    pub fn get_group_members(group_name: &str) -> (r: DbTask)
        ensures
            r@ == plain_task(DbCall::GetMembers { room: Room::Group, name: group_name@ }),
    {
        Self::get_members(Room::Group, group_name)
    }

    /// Starts to list the subscribers of a channel.
    pub fn get_channel_subscribers(channel_name: &str) -> (r: DbTask)
        ensures
            r@ == plain_task(DbCall::GetMembers { room: Room::Channel, name: channel_name@ }),
    {
        Self::get_members(Room::Channel, channel_name)
    }

    /// Starts to ask whether a user is in a room.
    pub fn is_member(room: Room, name: &str, username: &str) -> (r: DbTask)
        ensures
            r@ == plain_task(DbCall::IsMember { room, name: name@, username: username@ }),
    {
        query(
            statements::room_texts(room).is_member,
            params2(name, username),
            DbOp::Exists {
                labels: labels("Ошибка запроса: ", "Ошибка выполнения: ", "Ошибка чтения: "),
            },
        )
    }

    /// Starts to ask whether a channel is the user's own.
    pub fn is_channel_owner(name: &str, username: &str) -> (r: DbTask)
        ensures
            r@ == plain_task(DbCall::IsChannelOwner { name: name@, username: username@ }),
    {
        query(
            statements::SELECT_IS_OWNER,
            params2(name, username),
            DbOp::Exists { labels: no_labels() },
        )
    }

    /// Starts to store a message to a room under a given identifier.
    pub fn room_message(
        room: Room,
        message_id: &str,
        name: &str,
        sender: &str,
        content: &str,
        timestamp: i64,
    ) -> (r: DbTask)
        ensures
            r@ == task_of(
                DbCall::StoreRoomMessage {
                    room,
                    name: name@,
                    sender: sender@,
                    content: content@,
                    timestamp,
                },
                message_id@,
            ),
    {
        Self::find_room(
            room,
            name,
            RoomAction::Store {
                message_id: message_id.to_owned(),
                sender: sender.to_owned(),
                content: content.to_owned(),
                timestamp,
            },
        )
    }

    /// Starts to store a message to a room.
    pub fn store_room_message(
        room: Room,
        name: &str,
        sender: &str,
        content: &str,
        timestamp: i64,
    ) -> (r: DbTask)
        ensures
            starts(
                DbCall::StoreRoomMessage {
                    room,
                    name: name@,
                    sender: sender@,
                    content: content@,
                    timestamp,
                },
                r@,
            ),
    {
        let id = identity::new_id();
        Self::room_message(room, id.as_str(), name, sender, content, timestamp)
    }

    /// Starts to store a message to a group.
    pub fn store_group_message(
        group_name: &str,
        sender: &str,
        content: &str,
        timestamp: i64,
    ) -> (r: DbTask)
        ensures
            starts(
                DbCall::StoreRoomMessage {
                    room: Room::Group,
                    name: group_name@,
                    sender: sender@,
                    content: content@,
                    timestamp,
                },
                r@,
            ),
    {
        Self::store_room_message(Room::Group, group_name, sender, content, timestamp)
    }

    /// Starts to store a message to a channel.
    pub fn store_channel_message(
        channel_name: &str,
        sender: &str,
        content: &str,
        timestamp: i64,
    ) -> (r: DbTask)
        ensures
            starts(
                DbCall::StoreRoomMessage {
                    room: Room::Channel,
                    name: channel_name@,
                    sender: sender@,
                    content: content@,
                    timestamp,
                },
                r@,
            ),
    {
        Self::store_room_message(Room::Channel, channel_name, sender, content, timestamp)
    }

    /// Starts to list the messages of a room, the oldest first.
    pub fn get_room_messages(room: Room, name: &str, limit: i64, offset: i64) -> (r: DbTask)
        ensures
            r@ == plain_task(DbCall::GetRoomMessages { room, name: name@, limit, offset }),
    {
        room_page(room, name, limit, offset, DbOp::RoomMessages { name: name.to_owned() })
    }

    /// Starts to list the messages of a group.
    pub fn get_group_messages(group_name: &str, limit: i64, offset: i64) -> (r: DbTask)
        ensures
            r@ == plain_task(
                DbCall::GetRoomMessages { room: Room::Group, name: group_name@, limit, offset },
            ),
    {
        Self::get_room_messages(Room::Group, group_name, limit, offset)
    }

    /// Starts to list the messages of a channel.
    pub fn get_channel_messages(channel_name: &str, limit: i64, offset: i64) -> (r: DbTask)
        ensures
            r@ == plain_task(
                DbCall::GetRoomMessages { room: Room::Channel, name: channel_name@, limit, offset },
            ),
    {
        Self::get_room_messages(Room::Channel, channel_name, limit, offset)
    }

    /// Starts to list the first messages of each room that the user is in.
    pub fn room_history(room: Room, username: &str) -> (r: DbTask)
        ensures
            r@ == plain_task(DbCall::RoomHistory { room, username: username@ }),
    {
        query(
            statements::room_texts(room).mine,
            params1(username),
            DbOp::HistoryNames { room },
        )
    }

    /// Starts to list the groups that the user is in.
    pub fn list_groups(username: &str) -> (r: DbTask)
        ensures
            r@ == plain_task(DbCall::ListGroups { username: username@ }),
    {
        query(
            statements::SELECT_MY_GROUPS,
            params1(username),
            DbOp::Names { labels: no_labels(), column: String::new() },
        )
    }

    /// Starts to list the channels that the user has subscribed to, with their owners.
    pub fn list_channels(username: &str) -> (r: DbTask)
        ensures
            r@ == plain_task(DbCall::ListChannels { username: username@ }),
    {
        query(statements::SELECT_MY_CHANNELS_OWNERS, params1(username), DbOp::ChannelLines)
    }

    /// Starts to list all users.
    pub fn list_users() -> (r: DbTask)
        ensures
            r@ == plain_task(DbCall::ListUsers),
    {
        let params: Vec<SqlValue<String>> = Vec::new();
        assert(text::views(params@) =~= Seq::<SqlValue<Seq<char>>>::empty());
        query(statements::SELECT_USERS, params, DbOp::UserLines)
    }

    /// Starts to look up what a user sees of the own account.
    pub fn get_profile(username: &str) -> (r: DbTask)
        ensures
            r@ == plain_task(DbCall::GetProfile { username: username@ }),
    {
        query(statements::SELECT_PROFILE, params1(username), DbOp::GetProfile)
    }

    /// Starts to change a user's first and last name.
    pub fn set_name(username: &str, first_name: &str, last_name: &str) -> (r: DbTask)
        ensures
            r@ == plain_task(
                DbCall::SetName { username: username@, first: first_name@, last: last_name@ },
            ),
    {
        let display_name = if last_name.is_empty() {
            first_name.to_owned()
        } else {
            text::concat3(first_name, " ", last_name)
        };
        statement(
            statements::UPDATE_NAME,
            params4(first_name, last_name, display_name.as_str(), username),
            DbOp::Statement { label: "Ошибка обновления имени: ".to_owned() },
        )
    }

    /// Starts to change the name that a user is shown by.
    pub fn set_display_name(username: &str, display_name: &str) -> (r: DbTask)
        ensures
            r@ == plain_task(
                DbCall::SetDisplayName { username: username@, display_name: display_name@ },
            ),
    {
        statement(
            statements::UPDATE_DISPLAY_NAME,
            params2(display_name, username),
            DbOp::Statement { label: "Ошибка обновления отображаемого имени: ".to_owned() },
        )
    }

    /// Starts to change the name of a user.
    pub fn set_username(old_username: &str, new_username: &str) -> (r: DbTask)
        ensures
            r@ == plain_task(
                DbCall::SetUsername { old_username: old_username@, new_username: new_username@ },
            ),
    {
        query(
            statements::SELECT_USER,
            params1(new_username),
            DbOp::NewUsername {
                old_username: old_username.to_owned(),
                new_username: new_username.to_owned(),
            },
        )
    }

    /// Starts to bring the tables of an older database up to date.
    pub fn migrate_db() -> (r: DbTask)
        ensures
            r@ == plain_task(DbCall::Migrate),
    {
        check_table(0, false)
    }

    /// Starts to make the tables and indexes that are missing.
    pub fn init_db() -> (r: DbTask)
        ensures
            r@ == plain_task(DbCall::Init),
    {
        DbTask {
            request: DbRequest::Batch { sql: statements::CREATE_TABLES },
            op: DbOp::InitTables,
        }
    }

    /// Starts an operation other than a registration. `id` is the identifier that it
    /// makes, where it makes one.
    pub fn start_with(call: &DbCall<String>, id: &str) -> (r: DbTask)
        requires
            !(call is RegisterUser),
        ensures
            r@ == task_of(call@, id@),
    {
        match call {
            DbCall::RegisterUser { .. } => {
                assert(false);
                Self::init_db()
            },
            DbCall::LoginUserByPhone { phone, password } => Self::login_user_by_phone(
                phone.as_str(),
                password.as_str(),
            ),
            DbCall::UsernameById { user_id } => Self::username_by_id(user_id.as_str()),
            DbCall::CreateSession { user_id, device_name } => Self::session(
                id,
                user_id.as_str(),
                device_name.as_str(),
            ),
            DbCall::CheckSession { token } => Self::check_session(token.as_str()),
            DbCall::DeleteSession { token } => Self::delete_session(token.as_str()),
            DbCall::UserExists { username } => Self::user_exists_by_username(username.as_str()),
            DbCall::SaveFcmToken { user_id, token, device_name } => Self::save_fcm_token(
                user_id.as_str(),
                token.as_str(),
                device_name.as_str(),
            ),
            DbCall::GetFcmTokens { username } => Self::get_fcm_tokens_for_user(username.as_str()),
            DbCall::StoreMessage { sender, recipient, content, timestamp } => Self::message(
                id,
                sender.as_str(),
                recipient.as_str(),
                content.as_str(),
                *timestamp,
            ),
            DbCall::GetUserMessages { username, limit, offset } => Self::get_user_messages(
                username.as_str(),
                *limit,
                *offset,
            ),
            DbCall::CreateRoom { room, name, creator } => Self::new_room(
                *room,
                id,
                name.as_str(),
                creator.as_str(),
            ),
            DbCall::JoinRoom { room, name, username } => match room {
                Room::Group => Self::join_group(name.as_str(), username.as_str()),
                Room::Channel => Self::subscribe_channel(name.as_str(), username.as_str()),
            },
            DbCall::LeaveRoom { room, name, username } => match room {
                Room::Group => Self::leave_group(name.as_str(), username.as_str()),
                Room::Channel => Self::unsubscribe_channel(name.as_str(), username.as_str()),
            },
            DbCall::GetMembers { room, name } => match room {
                Room::Group => Self::get_group_members(name.as_str()),
                Room::Channel => Self::get_channel_subscribers(name.as_str()),
            },
            DbCall::IsMember { room, name, username } => Self::is_member(
                *room,
                name.as_str(),
                username.as_str(),
            ),
            DbCall::IsChannelOwner { name, username } => Self::is_channel_owner(
                name.as_str(),
                username.as_str(),
            ),
            DbCall::StoreRoomMessage { room, name, sender, content, timestamp } =>
                Self::room_message(
                    *room,
                    id,
                    name.as_str(),
                    sender.as_str(),
                    content.as_str(),
                    *timestamp,
                ),
            DbCall::GetRoomMessages { room, name, limit, offset } => match room {
                Room::Group => Self::get_group_messages(name.as_str(), *limit, *offset),
                Room::Channel => Self::get_channel_messages(name.as_str(), *limit, *offset),
            },
            DbCall::RoomHistory { room, username } => Self::room_history(
                *room,
                username.as_str(),
            ),
            DbCall::ListGroups { username } => Self::list_groups(username.as_str()),
            DbCall::ListChannels { username } => Self::list_channels(username.as_str()),
            DbCall::ListUsers => Self::list_users(),
            DbCall::GetProfile { username } => Self::get_profile(username.as_str()),
            DbCall::SetName { username, first, last } => Self::set_name(
                username.as_str(),
                first.as_str(),
                last.as_str(),
            ),
            DbCall::SetDisplayName { username, display_name } => Self::set_display_name(
                username.as_str(),
                display_name.as_str(),
            ),
            DbCall::SetUsername { old_username, new_username } => Self::set_username(
                old_username.as_str(),
                new_username.as_str(),
            ),
            DbCall::Migrate => Self::migrate_db(),
            DbCall::Init => Self::init_db(),
        }
    }

    /// Starts an operation.
    pub fn start(call: &DbCall<String>) -> (r: DbStep)
        ensures
            begun(call@, r@),
            r@.wf(),
    {
        match call {
            DbCall::RegisterUser { username, phone, password, first_name, last_name } =>
                Self::register_user(
                    username.as_str(),
                    phone.as_str(),
                    password.as_str(),
                    first_name,
                    last_name,
                ),
            DbCall::CreateSession { user_id, device_name } => DbStep::Ask(
                Self::create_session(user_id.as_str(), device_name.as_str()),
            ),
            DbCall::StoreMessage { sender, recipient, content, timestamp } => DbStep::Ask(
                Self::store_message(
                    sender.as_str(),
                    recipient.as_str(),
                    content.as_str(),
                    *timestamp,
                ),
            ),
            DbCall::CreateRoom { room, name, creator } => DbStep::Ask(
                match room {
                    Room::Group => Self::create_group(name.as_str(), creator.as_str()),
                    Room::Channel => Self::create_channel(name.as_str(), creator.as_str()),
                },
            ),
            DbCall::StoreRoomMessage { room, name, sender, content, timestamp } => DbStep::Ask(
                match room {
                    Room::Group => Self::store_group_message(
                        name.as_str(),
                        sender.as_str(),
                        content.as_str(),
                        *timestamp,
                    ),
                    Room::Channel => Self::store_channel_message(
                        name.as_str(),
                        sender.as_str(),
                        content.as_str(),
                        *timestamp,
                    ),
                },
            ),
            _ => {
                let id = identity::new_id();
                DbStep::Ask(Self::start_with(call, id.as_str()))
            },
        }
    }
}

/// Whether the step is one that the operation can start with.
pub open spec fn begun(call: DbCall<Seq<char>>, step: db::StepView) -> bool {
    match call {
        DbCall::RegisterUser { username, phone, password, first_name, last_name } => registers(
            username,
            phone,
            password,
            first_name,
            last_name,
            step,
        ),
        _ => step matches db::StepView::Ask(task) && starts(call, task),
    }
}

} // verus!
