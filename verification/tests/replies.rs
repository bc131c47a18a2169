use relay_server::db::{
    Answer, DbCall, DbOp, DbStep, DbTask, DbValue, Room, RoomAction, StoredMessage,
};
use relay_server::progress::login_result;
use relay_server::sql::{Cell, DbReply, DbRequest, Row, SqlValue};
use relay_server::state::AppState;

fn s(text: &str) -> String {
    text.to_string()
}

fn text(value: &str) -> Cell<String> {
    Cell::Text(value.to_string())
}

fn bad(why: &str) -> Cell<String> {
    Cell::Failed(why.to_string())
}

fn rows(rows: Vec<Vec<Cell<String>>>) -> DbReply {
    DbReply::Rows { rows: rows.into_iter().map(|cells| Row { cells }).collect(), broken: None }
}

fn broken(rows: Vec<Vec<Cell<String>>>, why: &str) -> DbReply {
    DbReply::Rows {
        rows: rows.into_iter().map(|cells| Row { cells }).collect(),
        broken: Some(s(why)),
    }
}

fn task(call: DbCall<String>) -> DbTask {
    AppState::start_with(&call, "id")
}

fn next(step: DbStep) -> DbTask {
    match step {
        DbStep::Ask(task) => task,
        DbStep::Done(outcome) => panic!("{:?}", outcome),
    }
}

fn reply(task: DbTask, reply: DbReply) -> DbStep {
    assert!(task.request.accepts(&reply));
    AppState::resume(task, &reply)
}

fn done(task: DbTask, answer: DbReply) -> Result<Answer, String> {
    match reply(task, answer) {
        DbStep::Done(outcome) => outcome,
        DbStep::Ask(task) => panic!("{:?}", task),
    }
}

fn error(task: DbTask, answer: DbReply) -> String {
    done(task, answer).unwrap_err()
}

fn statement(task: &DbTask) -> (String, Vec<SqlValue<String>>) {
    match &task.request {
        DbRequest::Execute { sql, params } => (
            sql.to_string(),
            params
                .iter()
                .map(|p| match p {
                    SqlValue::Text(t) => SqlValue::Text(t.clone()),
                    SqlValue::Integer(n) => SqlValue::Integer(*n),
                })
                .collect(),
        ),
        other => panic!("{:?}", other),
    }
}

fn param(value: &str) -> SqlValue<String> {
    SqlValue::Text(value.to_string())
}

#[test]
fn a_registration_puts_the_shown_name_in() {
    let params = |first: Option<&str>, last: Option<&str>| {
        let first = first.map(|t| t.to_string());
        let last = last.map(|t| t.to_string());
        statement(&AppState::registration("id", "bob", "123", "hash", &first, &last)).1
    };
    let expected = |first: &str, last: &str, shown: &str| {
        vec![
            param("id"),
            param("bob"),
            param("123"),
            param("hash"),
            param(first),
            param(last),
            param(shown),
        ]
    };
    assert_eq!(params(Some("A"), Some("B")), expected("A", "B", "A B"));
    assert_eq!(params(Some("A"), None), expected("A", "", "A"));
    assert_eq!(params(None, Some("B")), expected("", "B", "bob"));
    assert_eq!(params(None, None), expected("", "", "bob"));
    assert_eq!(params(Some("A"), Some("")), expected("A", "", "A "));
}

#[test]
fn a_registration_starts_with_a_hash() {
    match AppState::register_user("bob", "123", "secret", &None, &None) {
        DbStep::Ask(task) => {
            let (sql, params) = statement(&task);
            assert!(sql.starts_with("INSERT INTO users"));
            assert_eq!(params.len(), 7);
            match &params[3] {
                SqlValue::Text(hash) => {
                    assert!(hash.starts_with("$2b$12$"));
                    assert_eq!(bcrypt::verify("secret", hash).ok(), Some(true));
                }
                other => panic!("{:?}", other),
            }
            match (&params[0], &task.op) {
                (SqlValue::Text(a), DbOp::RegisterUser { user_id }) => assert_eq!(a, user_id),
                other => panic!("{:?}", other),
            }
        }
        DbStep::Done(outcome) => panic!("{:?}", outcome),
    }
}

#[test]
fn a_login_is_decided_by_the_hash() {
    assert_eq!(login_result(s("u"), Ok(true)), Ok(s("u")));
    assert_eq!(login_result(s("u"), Ok(false)), Err(s("Неверный телефон или пароль")));
    assert_eq!(login_result(s("u"), Err(s("bad"))), Err(s("Ошибка проверки пароля: bad")));
}

#[test]
fn every_way_in_which_a_login_fails() {
    let login = || task(DbCall::LoginUserByPhone { phone: s("1"), password: s("p") });
    assert_eq!(error(login(), DbReply::PrepareFailed(s("x"))), "Ошибка запроса: x");
    assert_eq!(error(login(), DbReply::RunFailed(s("x"))), "Ошибка выполнения: x");
    assert_eq!(error(login(), broken(vec![], "x")), "Ошибка чтения: x");
    assert_eq!(error(login(), rows(vec![])), "Неверный телефон или пароль");
    assert_eq!(error(login(), rows(vec![vec![bad("x"), bad("y")]])), "Ошибка чтения id: x");
    assert_eq!(error(login(), rows(vec![vec![text("u"), bad("y")]])), "Ошибка чтения hash: y");
    let hash = "$2b$04$EGdrhbKUv8Oc9vGiXX0HQOxSg445d458Muh7DAHskb6QbtCvdxcie";
    assert_eq!(
        error(login(), rows(vec![vec![text("u"), text(hash)]])),
        "Неверный телефон или пароль"
    );
    let right = task(DbCall::LoginUserByPhone {
        phone: s("1"),
        password: s("correctbatteryhorsestapler"),
    });
    assert_eq!(done(right, rows(vec![vec![text("u"), text(hash)]])), Ok(DbValue::Text(s("u"))));
}

#[test]
fn every_way_in_which_a_session_is_not_found() {
    let check = || task(DbCall::CheckSession { token: s("t") });
    assert_eq!(error(check(), DbReply::PrepareFailed(s("x"))), "Ошибка подготовки: x");
    assert_eq!(error(check(), DbReply::RunFailed(s("x"))), "Ошибка выполнения: x");
    assert_eq!(error(check(), broken(vec![], "x")), "Ошибка чтения: x");
    assert_eq!(error(check(), rows(vec![])), "Недействительный токен");
    assert_eq!(error(check(), rows(vec![vec![bad("x"), text("")]])), "Ошибка чтения user_id: x");
    assert_eq!(error(check(), rows(vec![vec![text(""), bad("x")]])), "Ошибка чтения username: x");
    let touch = || next(reply(check(), rows(vec![vec![text("u"), text("bob")]])));
    assert_eq!(
        statement(&touch()),
        (
            s("UPDATE sessions SET last_seen = CURRENT_TIMESTAMP WHERE token = ?"),
            vec![param("t")]
        )
    );
    assert_eq!(
        error(touch(), DbReply::Failed(s("x"))),
        "Ошибка обновления last_seen: x"
    );
    assert_eq!(
        done(touch(), DbReply::Done),
        Ok(DbValue::Account { user_id: s("u"), username: s("bob") })
    );
}

#[test]
fn a_name_that_is_not_found() {
    let find = || task(DbCall::UsernameById { user_id: s("u") });
    assert_eq!(error(find(), DbReply::PrepareFailed(s("x"))), "x");
    assert_eq!(error(find(), DbReply::RunFailed(s("x"))), "x");
    assert_eq!(error(find(), broken(vec![], "x")), "x");
    assert_eq!(error(find(), rows(vec![vec![bad("x")]])), "x");
    assert_eq!(error(find(), rows(vec![])), "Пользователь не найден");
    assert_eq!(done(find(), rows(vec![vec![text("bob")]])), Ok(DbValue::Text(s("bob"))));
}

#[test]
fn a_statement_that_fails_is_reported_with_its_label() {
    let failed = |call: DbCall<String>| error(task(call), DbReply::Failed(s("x")));
    assert_eq!(
        failed(DbCall::CreateSession { user_id: s(""), device_name: s("") }),
        "Ошибка создания сессии: x"
    );
    assert_eq!(failed(DbCall::DeleteSession { token: s("") }), "Ошибка удаления сессии: x");
    assert_eq!(
        failed(DbCall::SaveFcmToken { user_id: s(""), token: s(""), device_name: s("") }),
        "Ошибка сохранения FCM-токена: x"
    );
    assert_eq!(
        failed(DbCall::StoreMessage {
            sender: s(""),
            recipient: s(""),
            content: s(""),
            timestamp: 0,
        }),
        "Ошибка сохранения сообщения: x"
    );
    assert_eq!(
        failed(DbCall::SetName { username: s(""), first: s(""), last: s("") }),
        "Ошибка обновления имени: x"
    );
    assert_eq!(
        failed(DbCall::SetDisplayName { username: s(""), display_name: s("") }),
        "Ошибка обновления отображаемого имени: x"
    );
    assert_eq!(
        failed(DbCall::CreateRoom { room: Room::Group, name: s(""), creator: s("") }),
        "Ошибка создания группы: x"
    );
    assert_eq!(
        failed(DbCall::CreateRoom { room: Room::Channel, name: s(""), creator: s("") }),
        "Ошибка создания канала: x"
    );
    assert_eq!(failed(DbCall::Init), "Ошибка создания таблиц: x");
    let registration = AppState::registration("", "", "", "", &None, &None);
    assert_eq!(error(registration, DbReply::Failed(s("x"))), "Ошибка регистрации: x");
}

#[test]
fn a_new_room_gets_its_creator() {
    let owner = |room: Room| {
        let call = DbCall::CreateRoom { room, name: s("r"), creator: s("bob") };
        next(reply(task(call), DbReply::Done))
    };
    assert_eq!(
        statement(&owner(Room::Group)),
        (
            s("INSERT INTO group_members (group_id, username, role) VALUES (?, ?, 'owner')"),
            vec![param("id"), param("bob")]
        )
    );
    assert_eq!(
        error(owner(Room::Group), DbReply::Failed(s("x"))),
        "Ошибка добавления создателя в группу: x"
    );
    assert_eq!(
        statement(&owner(Room::Channel)),
        (
            s("INSERT INTO channel_subscribers (channel_id, username) VALUES (?, ?)"),
            vec![param("id"), param("bob")]
        )
    );
    assert_eq!(
        error(owner(Room::Channel), DbReply::Failed(s("x"))),
        "Ошибка подписки создателя: x"
    );
    assert_eq!(done(owner(Room::Channel), DbReply::Done), Ok(DbValue::Unit));
}

#[test]
fn something_is_done_with_a_room_once_it_is_found() {
    let find = |room: Room, action: RoomAction<String>| AppState::find_room(room, "r", action);
    let join = || RoomAction::Join { username: s("bob") };
    let leave = || RoomAction::Leave { username: s("bob") };
    let store = || RoomAction::Store {
        message_id: s("m"),
        sender: s("bob"),
        content: s("hi"),
        timestamp: 7,
    };
    let found = || rows(vec![vec![text("g")]]);
    let after = |room: Room, action: RoomAction<String>| next(reply(find(room, action), found()));
    assert_eq!(statement(&after(Room::Group, join())).1, vec![param("g"), param("bob")]);
    assert_eq!(statement(&after(Room::Channel, leave())).1, vec![param("g"), param("bob")]);
    assert_eq!(
        statement(&after(Room::Group, store())).1,
        vec![param("m"), param("g"), param("bob"), param("hi"), SqlValue::Integer(7)]
    );
    let label = |room: Room, action: RoomAction<String>| {
        error(after(room, action), DbReply::Failed(s("x")))
    };
    assert_eq!(label(Room::Group, join()), "Ошибка присоединения к группе: x");
    assert_eq!(label(Room::Group, leave()), "Ошибка выхода из группы: x");
    assert_eq!(label(Room::Group, store()), "Ошибка сохранения группового сообщения: x");
    assert_eq!(label(Room::Channel, join()), "Ошибка подписки: x");
    assert_eq!(label(Room::Channel, leave()), "Ошибка отписки: x");
    assert_eq!(label(Room::Channel, store()), "Ошибка сохранения сообщения канала: x");
    assert_eq!(
        error(find(Room::Group, join()), DbReply::PrepareFailed(s("x"))),
        "Ошибка запроса группы: x"
    );
    assert_eq!(
        error(find(Room::Channel, join()), DbReply::RunFailed(s("x"))),
        "Ошибка выполнения: x"
    );
    assert_eq!(error(find(Room::Channel, join()), broken(vec![], "x")), "Ошибка чтения: x");
    assert_eq!(
        error(find(Room::Channel, join()), rows(vec![vec![bad("x")]])),
        "Ошибка чтения id: x"
    );
    assert_eq!(error(find(Room::Group, leave()), rows(vec![])), "Группа не найдена");
    assert_eq!(error(find(Room::Channel, store()), rows(vec![])), "Канал не найден");
}

#[test]
fn a_list_fails_with_its_first_error() {
    let list = || task(DbCall::GetFcmTokens { username: s("bob") });
    assert_eq!(
        done(list(), rows(vec![vec![text("a")], vec![text("b")]])),
        Ok(DbValue::Names(vec![s("a"), s("b")]))
    );
    assert_eq!(error(list(), DbReply::RunFailed(s("x"))), "Ошибка выполнения: x");
    assert_eq!(
        error(list(), broken(vec![vec![text("a")], vec![bad("y")], vec![bad("z")]], "x")),
        "Ошибка чтения токена: y"
    );
    assert_eq!(error(list(), broken(vec![vec![text("a")]], "x")), "Ошибка чтения: x");
    let members = task(DbCall::GetMembers { room: Room::Group, name: s("g") });
    assert_eq!(error(members, rows(vec![vec![bad("y")]])), "Ошибка чтения username: y");
    let groups = task(DbCall::ListGroups { username: s("bob") });
    assert_eq!(error(groups, rows(vec![vec![bad("y")]])), "y");
}

#[test]
fn lists_of_channels_and_users() {
    let channels = || task(DbCall::ListChannels { username: s("bob") });
    assert_eq!(
        done(channels(), rows(vec![vec![text("n"), text("eve")]])),
        Ok(DbValue::Names(vec![s("n|eve")]))
    );
    assert_eq!(error(channels(), rows(vec![vec![text("n"), bad("y")]])), "y");
    let users = || task(DbCall::ListUsers);
    assert_eq!(
        done(
            users(),
            rows(vec![
                vec![text("a"), text("A"), text("B")],
                vec![text("b"), text("A"), bad("null")],
                vec![text("c"), bad("null"), text("B")],
                vec![text("d"), bad("null"), bad("null")],
            ])
        ),
        Ok(DbValue::Names(vec![s("a|A B"), s("b|A"), s("c|c"), s("d|d")]))
    );
    assert_eq!(error(users(), rows(vec![vec![bad("y"), text(""), text("")]])), "y");
}

#[test]
fn messages_are_read_column_by_column() {
    let list = || task(DbCall::GetUserMessages { username: s("bob"), limit: 1, offset: 0 });
    let row = |bad_at: usize| {
        let mut cells = vec![text("a"), text("b"), text("c"), Cell::Integer(5)];
        if bad_at < 4 {
            cells[bad_at] = bad("x");
        }
        rows(vec![cells])
    };
    assert_eq!(
        done(list(), row(4)),
        Ok(DbValue::Messages(vec![StoredMessage {
            sender: s("a"),
            recipient: s("b"),
            content: s("c"),
            timestamp: 5,
        }]))
    );
    assert_eq!(error(list(), row(0)), "Ошибка чтения sender: x");
    assert_eq!(error(list(), row(1)), "Ошибка чтения recipient: x");
    assert_eq!(error(list(), row(2)), "Ошибка чтения content: x");
    assert_eq!(error(list(), row(3)), "Ошибка чтения timestamp: x");
    assert_eq!(error(list(), DbReply::PrepareFailed(s("x"))), "Ошибка подготовки: x");
    let page = AppState::get_group_messages("g", 1, 0);
    assert_eq!(
        done(page, rows(vec![vec![text("a"), text("c"), Cell::Integer(6)]])),
        Ok(DbValue::Messages(vec![StoredMessage {
            sender: s("a"),
            recipient: s("g"),
            content: s("c"),
            timestamp: 6,
        }]))
    );
    let page = AppState::get_channel_messages("g", 1, 0);
    assert_eq!(
        error(page, rows(vec![vec![text("a"), text("c"), bad("x")]])),
        "Ошибка чтения timestamp: x"
    );
}

#[test]
fn a_history_ends_with_the_first_room_that_cannot_be_read() {
    let start = || task(DbCall::RoomHistory { room: Room::Group, username: s("bob") });
    assert_eq!(done(start(), rows(vec![])), Ok(DbValue::Messages(vec![])));
    assert_eq!(error(start(), rows(vec![vec![bad("x")]])), "x");
    let first = || next(reply(start(), rows(vec![vec![text("a")], vec![text("b")]])));
    assert_eq!(error(first(), DbReply::RunFailed(s("x"))), "Ошибка выполнения: x");
    let second = next(reply(first(), rows(vec![vec![text("eve"), text("1"), Cell::Integer(1)]])));
    let message = |recipient: &str, content: &str| StoredMessage {
        sender: s("eve"),
        recipient: s(recipient),
        content: s(content),
        timestamp: 1,
    };
    assert_eq!(
        done(second, rows(vec![vec![text("eve"), text("2"), Cell::Integer(1)]])),
        Ok(DbValue::Messages(vec![message("a", "1"), message("b", "2")]))
    );
}

#[test]
fn every_column_of_a_profile_is_read() {
    let find = || task(DbCall::GetProfile { username: s("bob") });
    let row = |bad_at: usize| {
        let mut cells = vec![text("1"), text("2"), text("3"), text("4"), text("5")];
        cells[bad_at] = bad("x");
        rows(vec![cells])
    };
    for (at, name) in ["username", "phone", "first_name", "last_name", "display_name"]
        .iter()
        .enumerate()
    {
        assert_eq!(error(find(), row(at)), format!("Ошибка чтения {}: x", name));
    }
    assert_eq!(error(find(), DbReply::PrepareFailed(s("x"))), "Ошибка подготовки запроса: x");
    assert_eq!(error(find(), DbReply::RunFailed(s("x"))), "Ошибка выполнения запроса: x");
    assert_eq!(error(find(), broken(vec![], "x")), "Ошибка чтения результата: x");
    assert_eq!(error(find(), rows(vec![])), "Пользователь не найден");
}

#[test]
fn a_taken_name_is_never_written() {
    let start = || task(DbCall::SetUsername { old_username: s("bob"), new_username: s("rob") });
    let found = || rows(vec![vec![]]);
    assert_eq!(error(start(), found()), "Username уже занят");
    assert_eq!(error(start(), DbReply::PrepareFailed(s("x"))), "Ошибка подготовки запроса: x");
    assert_eq!(error(start(), DbReply::RunFailed(s("x"))), "Ошибка выполнения запроса: x");
    assert_eq!(error(start(), broken(vec![], "x")), "Ошибка чтения: x");
    let second = || next(reply(start(), rows(vec![])));
    assert_eq!(error(second(), rows(vec![])), "Пользователь не найден");
    let last = || next(reply(second(), found()));
    assert_eq!(
        statement(&last()),
        (s("UPDATE users SET username = ? WHERE username = ?"), vec![param("rob"), param("bob")])
    );
    assert_eq!(error(last(), DbReply::Failed(s("x"))), "Ошибка обновления username: x");
}

#[test]
fn a_table_is_altered_exactly_if_its_column_is_missing() {
    let check = || AppState::migrate_db();
    let has = rows(vec![vec![text("id")], vec![text("sent_at")], vec![bad("unseen")]]);
    match &next(reply(check(), has)).request {
        DbRequest::Query { sql, .. } => assert_eq!(*sql, "PRAGMA table_info(group_messages)"),
        other => panic!("{:?}", other),
    }
    let lacks = rows(vec![vec![text("id")]]);
    let fix = next(reply(check(), lacks));
    assert_eq!(
        statement(&fix),
        (
            s("ALTER TABLE messages ADD COLUMN sent_at TIMESTAMP DEFAULT CURRENT_TIMESTAMP"),
            vec![]
        )
    );
    match &next(reply(fix, DbReply::Done)).request {
        DbRequest::Query { sql, .. } => assert_eq!(*sql, "PRAGMA table_info(group_messages)"),
        other => panic!("{:?}", other),
    }
    assert_eq!(error(check(), rows(vec![vec![bad("x")], vec![text("sent_at")]])), "x");
    assert_eq!(error(check(), broken(vec![vec![text("id")]], "x")), "x");
    assert_eq!(error(check(), DbReply::PrepareFailed(s("x"))), "x");
}

#[test]
fn a_column_that_cannot_be_added_plainly_is_added_with_values() {
    let fix = || next(reply(AppState::migrate_db(), rows(vec![])));
    let add = || next(reply(fix(), DbReply::Failed(s("first"))));
    match &add().request {
        DbRequest::Batch { sql } => {
            let steps: Vec<&str> = sql.split(';').map(|part| part.trim()).collect();
            assert_eq!(
                steps,
                vec![
                    "BEGIN",
                    "ALTER TABLE messages ADD COLUMN sent_at TIMESTAMP",
                    "UPDATE messages SET sent_at = CURRENT_TIMESTAMP WHERE sent_at IS NULL",
                    "COMMIT",
                    "",
                ]
            );
        }
        other => panic!("{:?}", other),
    }
    match &next(reply(add(), DbReply::Done)).request {
        DbRequest::Query { sql, .. } => assert_eq!(*sql, "PRAGMA table_info(group_messages)"),
        other => panic!("{:?}", other),
    }
    let undo = || next(reply(add(), DbReply::Failed(s("second"))));
    assert_eq!(statement(&undo()), (s("ROLLBACK"), vec![]));
    assert_eq!(error(undo(), DbReply::Done), "first");
    assert_eq!(error(undo(), DbReply::Failed(s("third"))), "first");
}

#[test]
fn a_registration_follows_the_hash() {
    let start = |hash: Result<String, String>| {
        AppState::register_hashed("id", "bob", "123", hash, &Some(s("A")), &None)
    };
    assert_eq!(
        start(Ok(s("hash"))),
        DbStep::Ask(AppState::registration("id", "bob", "123", "hash", &Some(s("A")), &None))
    );
    assert_eq!(
        start(Err(s("нет"))),
        DbStep::Done(Err(s("Ошибка хеширования: нет")))
    );
}

#[test]
fn a_reply_must_fit_its_request() {
    let query = task(DbCall::CheckSession { token: s("t") });
    assert!(!query.request.accepts(&DbReply::Done));
    assert!(!query.request.accepts(&rows(vec![vec![text("a")]])));
    assert!(!query.request.accepts(&rows(vec![vec![text("a"), Cell::Integer(1)]])));
    assert!(!query.request.accepts(&broken(vec![vec![text("a"), text("b")]], "x")));
    let two = vec![vec![text("a"), text("b")], vec![text("a"), text("b")]];
    assert!(!query.request.accepts(&rows(two)));
    assert!(query.request.accepts(&rows(vec![vec![text("a"), bad("x")]])));
    let statement = task(DbCall::DeleteSession { token: s("t") });
    assert!(!statement.request.accepts(&rows(vec![])));
    assert!(statement.request.accepts(&DbReply::Failed(s("x"))));
}
