use relay_server::crypto::{ws_handshake, Incoming};
use relay_server::db::{Answer, DbCall, DbStep, DbValue, Profile, Room, StoredMessage};
use relay_server::sql::{Cell, ColumnKind, DbReply, DbRequest, Row, SqlValue};
use relay_server::state::AppState;
use relay_server::turn::{Client, Event, Next, Phase};
use rusqlite::types::Value;
use rusqlite::{params_from_iter, Connection};

fn values(params: &[SqlValue<String>]) -> Vec<Value> {
    params
        .iter()
        .map(|p| match p {
            SqlValue::Text(s) => Value::Text(s.clone()),
            SqlValue::Integer(n) => Value::Integer(*n),
        })
        .collect()
}

fn perform(db: &Connection, request: &DbRequest) -> DbReply {
    let done = match request {
        DbRequest::Execute { sql, params } => {
            db.execute(sql, params_from_iter(values(params))).map(|_| ())
        }
        DbRequest::Batch { sql } => db.execute_batch(sql),
        DbRequest::Query { sql, params, columns, first_only } => {
            let mut statement = match db.prepare(sql) {
                Ok(statement) => statement,
                Err(e) => return DbReply::PrepareFailed(e.to_string()),
            };
            let mut found = match statement.query(params_from_iter(values(params))) {
                Ok(found) => found,
                Err(e) => return DbReply::RunFailed(e.to_string()),
            };
            let mut rows = Vec::new();
            while let Some(row) = found.next().unwrap() {
                let mut cells = Vec::new();
                for column in columns {
                    cells.push(match column.kind {
                        ColumnKind::Text => match row.get::<_, String>(column.index) {
                            Ok(s) => Cell::Text(s),
                            Err(e) => Cell::Failed(e.to_string()),
                        },
                        ColumnKind::Integer => match row.get::<_, i64>(column.index) {
                            Ok(n) => Cell::Integer(n),
                            Err(e) => Cell::Failed(e.to_string()),
                        },
                    });
                }
                rows.push(Row { cells });
                if *first_only {
                    break;
                }
            }
            return DbReply::Rows { rows, broken: None };
        }
    };
    match done {
        Ok(()) => DbReply::Done,
        Err(e) => DbReply::Failed(e.to_string()),
    }
}

fn play(db: &Connection, first: DbStep, sent: &mut Vec<String>) -> Result<Answer, String> {
    let mut step = first;
    loop {
        match step {
            DbStep::Done(outcome) => return outcome,
            DbStep::Ask(task) => {
                sent.push(match &task.request {
                    DbRequest::Execute { sql, .. } => sql.to_string(),
                    DbRequest::Batch { sql } => sql.to_string(),
                    DbRequest::Query { sql, .. } => sql.to_string(),
                });
                let reply = perform(db, &task.request);
                assert!(task.request.accepts(&reply));
                step = AppState::resume(task, &reply);
            }
        }
    }
}

fn run(db: &Connection, call: DbCall<String>) -> Result<Answer, String> {
    play(db, AppState::start(&call), &mut Vec::new())
}

fn s(text: &str) -> String {
    text.to_string()
}

fn open() -> Connection {
    let db = Connection::open_in_memory().unwrap();
    assert_eq!(run(&db, DbCall::Init), Ok(DbValue::Unit));
    db
}

/// Puts a user in under a hash that needs no work factor.
fn add_user(db: &Connection, id: &str, username: &str, phone: &str) {
    let hash = "$2b$04$EGdrhbKUv8Oc9vGiXX0HQOxSg445d458Muh7DAHskb6QbtCvdxcie";
    let task = AppState::registration(id, username, phone, hash, &None, &None);
    assert_eq!(play(db, DbStep::Ask(task), &mut Vec::new()), Ok(DbValue::Text(s(id))));
}

fn names(outcome: Result<Answer, String>) -> Vec<String> {
    match outcome {
        Ok(DbValue::Names(names)) => names,
        other => panic!("{:?}", other),
    }
}

fn messages(outcome: Result<Answer, String>) -> Vec<StoredMessage<String>> {
    match outcome {
        Ok(DbValue::Messages(messages)) => messages,
        other => panic!("{:?}", other),
    }
}

fn message(sender: &str, recipient: &str, content: &str, timestamp: i64) -> StoredMessage<String> {
    StoredMessage { sender: s(sender), recipient: s(recipient), content: s(content), timestamp }
}

#[test]
fn whoever_registers_can_log_in() {
    let db = open();
    let registered = run(
        &db,
        DbCall::RegisterUser {
            username: s("bob"),
            phone: s("+7 900"),
            password: s("пароль"),
            first_name: Some(s("Bob")),
            last_name: Some(s("Ross")),
        },
    );
    let user_id = match registered {
        Ok(DbValue::Text(id)) => id,
        other => panic!("{:?}", other),
    };
    assert_eq!(
        run(&db, DbCall::LoginUserByPhone { phone: s("+7 900"), password: s("пароль") }),
        Ok(DbValue::Text(user_id.clone()))
    );
    assert_eq!(
        run(&db, DbCall::UsernameById { user_id: user_id.clone() }),
        Ok(DbValue::Text(s("bob")))
    );
    let hash: String = db
        .query_row("SELECT password_hash FROM users", [], |row| row.get(0))
        .unwrap();
    assert_ne!(hash, "пароль");
}

#[test]
fn identifiers_are_written_with_hyphens() {
    let db = open();
    add_user(&db, "u", "bob", "123");
    let token = match run(&db, DbCall::CreateSession { user_id: s("u"), device_name: s("d") }) {
        Ok(DbValue::Text(token)) => token,
        other => panic!("{:?}", other),
    };
    assert_eq!(token.len(), 36);
    let groups: Vec<usize> = token.split('-').map(|g| g.len()).collect();
    assert_eq!(groups, vec![8, 4, 4, 4, 12]);
    assert!(token.chars().all(|c| c == '-' || c.is_ascii_digit() || ('a'..='f').contains(&c)));
    let other = run(&db, DbCall::CreateSession { user_id: s("u"), device_name: s("d") });
    assert_ne!(other, Ok(DbValue::Text(token)));
}

#[test]
fn a_wrong_password_is_refused() {
    let db = open();
    add_user(&db, "u1", "bob", "123");
    assert_eq!(
        run(&db, DbCall::LoginUserByPhone {
            phone: s("123"),
            password: s("correctbatteryhorsestapler"),
        }),
        Ok(DbValue::Text(s("u1")))
    );
    assert_eq!(
        run(&db, DbCall::LoginUserByPhone { phone: s("123"), password: s("wrong") }),
        Err(s("Неверный телефон или пароль"))
    );
    assert_eq!(
        run(&db, DbCall::LoginUserByPhone { phone: s("999"), password: s("wrong") }),
        Err(s("Неверный телефон или пароль"))
    );
}

#[test]
fn a_hash_that_is_none_is_reported() {
    let db = open();
    let task = AppState::registration("u1", "bob", "123", "not a hash", &None, &None);
    assert_eq!(play(&db, DbStep::Ask(task), &mut Vec::new()), Ok(DbValue::Text(s("u1"))));
    match run(&db, DbCall::LoginUserByPhone { phone: s("123"), password: s("x") }) {
        Err(e) => assert!(e.starts_with("Ошибка проверки пароля: ")),
        other => panic!("{:?}", other),
    }
}

#[test]
fn a_phone_number_is_registered_once() {
    let db = open();
    add_user(&db, "u1", "bob", "123");
    let task = AppState::registration("u2", "eve", "123", "h", &None, &None);
    assert_eq!(
        play(&db, DbStep::Ask(task), &mut Vec::new()),
        Err(s("Ошибка регистрации: UNIQUE constraint failed: users.phone"))
    );
}

#[test]
fn a_session_is_found_by_its_token_until_it_ends() {
    let db = open();
    add_user(&db, "u1", "bob", "123");
    let task = AppState::session("tok", "u1", "phone");
    assert_eq!(play(&db, DbStep::Ask(task), &mut Vec::new()), Ok(DbValue::Text(s("tok"))));
    assert_eq!(
        run(&db, DbCall::CheckSession { token: s("tok") }),
        Ok(DbValue::Account { user_id: s("u1"), username: s("bob") })
    );
    assert_eq!(run(&db, DbCall::DeleteSession { token: s("tok") }), Ok(DbValue::Unit));
    assert_eq!(
        run(&db, DbCall::CheckSession { token: s("tok") }),
        Err(s("Недействительный токен"))
    );
}

#[test]
fn private_messages_of_both_directions_come_by_time() {
    let db = open();
    for (from, to, text, at) in [
        ("bob", "eve", "второе", 2_000_000),
        ("eve", "bob", "первое", 1_000_999),
        ("tom", "eve", "чужое", 3_000_000),
    ] {
        let stored = run(&db, DbCall::StoreMessage {
            sender: s(from),
            recipient: s(to),
            content: s(text),
            timestamp: at,
        });
        assert_eq!(stored, Ok(DbValue::Unit));
    }
    let of_bob = |limit: i64, offset: i64| {
        messages(run(&db, DbCall::GetUserMessages { username: s("bob"), limit, offset }))
    };
    let first = message("eve", "bob", "первое", 1_000_000);
    let second = message("bob", "eve", "второе", 2_000_000);
    assert_eq!(of_bob(100, 0), vec![first, second]);
    assert_eq!(of_bob(1, 1), vec![message("bob", "eve", "второе", 2_000_000)]);
    assert_eq!(of_bob(100, 2), Vec::new());
}

#[test]
fn whoever_makes_a_group_is_in_it() {
    let db = open();
    let name = || s("кот и пёс");
    assert_eq!(
        run(&db, DbCall::CreateRoom { room: Room::Group, name: name(), creator: s("bob") }),
        Ok(DbValue::Unit)
    );
    assert_eq!(
        run(&db, DbCall::CreateRoom { room: Room::Group, name: name(), creator: s("eve") }),
        Err(s("Ошибка создания группы: UNIQUE constraint failed: groups.name"))
    );
    let members = || names(run(&db, DbCall::GetMembers { room: Room::Group, name: name() }));
    let is_member = |who: &str| {
        run(&db, DbCall::IsMember { room: Room::Group, name: name(), username: s(who) })
    };
    assert_eq!(members(), vec![s("bob")]);
    assert_eq!(is_member("eve"), Ok(DbValue::Flag(false)));
    let join = |who: &str| {
        run(&db, DbCall::JoinRoom { room: Room::Group, name: name(), username: s(who) })
    };
    assert_eq!(join("eve"), Ok(DbValue::Unit));
    assert_eq!(join("eve"), Ok(DbValue::Unit));
    assert_eq!(members(), vec![s("bob"), s("eve")]);
    assert_eq!(is_member("eve"), Ok(DbValue::Flag(true)));
    assert_eq!(names(run(&db, DbCall::ListGroups { username: s("eve") })), vec![name()]);
    assert_eq!(
        run(&db, DbCall::LeaveRoom { room: Room::Group, name: name(), username: s("bob") }),
        Ok(DbValue::Unit)
    );
    assert_eq!(members(), vec![s("eve")]);
}

#[test]
fn a_channel_has_subscribers_and_one_owner() {
    let db = open();
    let name = || s("news");
    let create =
        run(&db, DbCall::CreateRoom { room: Room::Channel, name: name(), creator: s("bob") });
    assert_eq!(create, Ok(DbValue::Unit));
    let join =
        run(&db, DbCall::JoinRoom { room: Room::Channel, name: name(), username: s("eve") });
    assert_eq!(join, Ok(DbValue::Unit));
    assert_eq!(
        names(run(&db, DbCall::GetMembers { room: Room::Channel, name: name() })),
        vec![s("bob"), s("eve")]
    );
    let owns = |who: &str| run(&db, DbCall::IsChannelOwner { name: name(), username: s(who) });
    assert_eq!(owns("bob"), Ok(DbValue::Flag(true)));
    assert_eq!(owns("eve"), Ok(DbValue::Flag(false)));
    assert_eq!(
        names(run(&db, DbCall::ListChannels { username: s("eve") })),
        vec![s("news|bob")]
    );
    let leave =
        run(&db, DbCall::LeaveRoom { room: Room::Channel, name: name(), username: s("eve") });
    assert_eq!(leave, Ok(DbValue::Unit));
    assert_eq!(names(run(&db, DbCall::ListChannels { username: s("eve") })), Vec::<String>::new());
}

#[test]
fn a_room_that_is_not_there_is_not_found() {
    let db = open();
    let none = |room: Room| {
        let join = run(&db, DbCall::JoinRoom { room, name: s("x"), username: s("bob") });
        let leave = run(&db, DbCall::LeaveRoom { room, name: s("x"), username: s("bob") });
        let store = run(&db, DbCall::StoreRoomMessage {
            room,
            name: s("x"),
            sender: s("bob"),
            content: s("hi"),
            timestamp: 0,
        });
        [join, leave, store]
    };
    for outcome in none(Room::Group) {
        assert_eq!(outcome, Err(s("Группа не найдена")));
    }
    for outcome in none(Room::Channel) {
        assert_eq!(outcome, Err(s("Канал не найден")));
    }
    let stored: i64 =
        db.query_row("SELECT COUNT(*) FROM group_messages", [], |row| row.get(0)).unwrap();
    assert_eq!(stored, 0);
}

#[test]
fn a_history_holds_one_room_after_the_other() {
    let db = open();
    for room in ["a", "b", "c"] {
        run(&db, DbCall::CreateRoom { room: Room::Group, name: s(room), creator: s("bob") })
            .unwrap();
    }
    for (room, text, at) in [("b", "b1", 1_000), ("a", "a2", 9_000), ("a", "a1", 5_000)] {
        run(&db, DbCall::StoreRoomMessage {
            room: Room::Group,
            name: s(room),
            sender: s("eve"),
            content: s(text),
            timestamp: at,
        })
        .unwrap();
    }
    let history =
        messages(run(&db, DbCall::RoomHistory { room: Room::Group, username: s("bob") }));
    let mut by_room = names(run(&db, DbCall::ListGroups { username: s("bob") }));
    by_room.retain(|r| r != "c");
    let mut expected = Vec::new();
    for room in by_room {
        if room == "a" {
            expected.push(message("eve", "a", "a1", 5_000));
            expected.push(message("eve", "a", "a2", 9_000));
        } else {
            expected.push(message("eve", "b", "b1", 1_000));
        }
    }
    assert_eq!(history, expected);
    assert_eq!(
        messages(run(&db, DbCall::RoomHistory { room: Room::Channel, username: s("bob") })),
        Vec::new()
    );
    assert_eq!(
        messages(run(&db, DbCall::GetRoomMessages {
            room: Room::Group,
            name: s("a"),
            limit: 1,
            offset: 1,
        })),
        vec![message("eve", "a", "a2", 9_000)]
    );
}

#[test]
fn the_history_of_channels() {
    let db = open();
    run(&db, DbCall::CreateRoom { room: Room::Channel, name: s("n"), creator: s("bob") }).unwrap();
    run(&db, DbCall::StoreRoomMessage {
        room: Room::Channel,
        name: s("n"),
        sender: s("bob"),
        content: s("hi"),
        timestamp: 4_000,
    })
    .unwrap();
    assert_eq!(
        messages(run(&db, DbCall::RoomHistory { room: Room::Channel, username: s("bob") })),
        vec![message("bob", "n", "hi", 4_000)]
    );
}

#[test]
fn push_tokens_are_kept_per_user() {
    let db = open();
    add_user(&db, "u1", "bob", "123");
    for token in ["f1", "f2", "f1"] {
        let saved = run(&db, DbCall::SaveFcmToken {
            user_id: s("u1"),
            token: s(token),
            device_name: s("d"),
        });
        assert_eq!(saved, Ok(DbValue::Unit));
    }
    let mut tokens = names(run(&db, DbCall::GetFcmTokens { username: s("bob") }));
    tokens.sort();
    assert_eq!(tokens, vec![s("f1"), s("f2")]);
    assert_eq!(names(run(&db, DbCall::GetFcmTokens { username: s("eve") })), Vec::<String>::new());
}

#[test]
fn a_profile_shows_the_names() {
    let db = open();
    let task = AppState::registration(
        "u1",
        "bob",
        "123",
        "h",
        &Some(s("Боб")),
        &Some(s("Росс")),
    );
    play(&db, DbStep::Ask(task), &mut Vec::new()).unwrap();
    let profile = |username: &str| run(&db, DbCall::GetProfile { username: s(username) });
    let expected = |first: &str, last: &str, shown: &str| {
        Ok(DbValue::Profile(Profile {
            username: s("bob"),
            phone: s("123"),
            first_name: s(first),
            last_name: s(last),
            display_name: s(shown),
        }))
    };
    assert_eq!(profile("bob"), expected("Боб", "Росс", "Боб Росс"));
    let set = |first: &str, last: &str| {
        run(&db, DbCall::SetName { username: s("bob"), first: s(first), last: s(last) }).unwrap()
    };
    set("Роб", "");
    assert_eq!(profile("bob"), expected("Роб", "", "Роб"));
    set("Роб", "де Росс");
    assert_eq!(profile("bob"), expected("Роб", "де Росс", "Роб де Росс"));
    run(&db, DbCall::SetDisplayName { username: s("bob"), display_name: s("Бобби") }).unwrap();
    assert_eq!(profile("bob"), expected("Роб", "де Росс", "Бобби"));
    assert_eq!(profile("eve"), Err(s("Пользователь не найден")));
}

#[test]
fn users_are_listed_with_the_names_they_are_shown_by() {
    let db = open();
    let add = |id: &str, username: &str, first: Option<&str>, last: Option<&str>| {
        let first = first.map(|t| t.to_string());
        let last = last.map(|t| t.to_string());
        let task = AppState::registration(id, username, id, "h", &first, &last);
        play(&db, DbStep::Ask(task), &mut Vec::new()).unwrap();
    };
    add("1", "carl", Some("Карл"), Some("Сон"));
    add("2", "anna", Some("Анна"), None);
    db.execute("INSERT INTO users (id, username, phone, password_hash) VALUES ('3','bob','3','h')", [])
        .unwrap();
    db.execute(
        "INSERT INTO users (id, username, phone, password_hash, first_name) VALUES ('4','dan','4','h','Дан')",
        [],
    )
    .unwrap();
    assert_eq!(
        names(run(&db, DbCall::ListUsers)),
        vec![s("anna|Анна "), s("bob|bob"), s("carl|Карл Сон"), s("dan|Дан")]
    );
}

#[test]
fn a_user_name_is_changed_only_to_one_that_is_free() {
    let db = open();
    add_user(&db, "u1", "bob", "1");
    add_user(&db, "u2", "eve", "2");
    let rename = |old: &str, new: &str| {
        run(&db, DbCall::SetUsername { old_username: s(old), new_username: s(new) })
    };
    let exists = |name: &str| run(&db, DbCall::UserExists { username: s(name) });
    assert_eq!(rename("bob", "eve"), Err(s("Username уже занят")));
    assert_eq!(rename("bob", "bob"), Err(s("Username уже занят")));
    assert_eq!(rename("tom", "tim"), Err(s("Пользователь не найден")));
    assert_eq!(exists("bob"), Ok(DbValue::Flag(true)));
    assert_eq!(rename("bob", "rob"), Ok(DbValue::Unit));
    assert_eq!(exists("bob"), Ok(DbValue::Flag(false)));
    assert_eq!(exists("rob"), Ok(DbValue::Flag(true)));
}

#[test]
fn a_database_is_set_up_twice_without_harm() {
    let db = open();
    add_user(&db, "u1", "bob", "1");
    let mut sent = Vec::new();
    assert_eq!(play(&db, AppState::start(&DbCall::Init), &mut sent), Ok(DbValue::Unit));
    assert_eq!(sent.len(), 1 + 4 + 6 + 6);
    assert!(!sent.iter().any(|sql| sql.starts_with("ALTER")));
    assert_eq!(run(&db, DbCall::UserExists { username: s("bob") }), Ok(DbValue::Flag(true)));
}

#[test]
fn an_old_database_gets_what_it_lacks() {
    let db = Connection::open_in_memory().unwrap();
    db.execute_batch(
        "CREATE TABLE users (id TEXT PRIMARY KEY, username TEXT);
         CREATE TABLE sessions (token TEXT PRIMARY KEY, user_id TEXT);
         CREATE TABLE messages (id TEXT, sender_username TEXT, recipient_username TEXT, content TEXT, sent_at TIMESTAMP);
         CREATE TABLE group_messages (id TEXT, group_id TEXT);
         CREATE TABLE channel_messages (id TEXT, channel_id TEXT, sent_at TIMESTAMP);",
    )
    .unwrap();
    let mut sent = Vec::new();
    assert_eq!(play(&db, AppState::start(&DbCall::Migrate), &mut sent), Ok(DbValue::Unit));
    let alters: Vec<&String> = sent.iter().filter(|sql| sql.starts_with("ALTER")).collect();
    assert_eq!(
        alters,
        vec!["ALTER TABLE group_messages ADD COLUMN sent_at TIMESTAMP DEFAULT CURRENT_TIMESTAMP"]
    );
    assert_eq!(sent.len(), 4 + 1 + 1 + 6);
    db.execute_batch("INSERT INTO group_messages (id, group_id) VALUES ('1', 'g')").unwrap();
    let dated: i64 = db
        .query_row(
            "SELECT COUNT(*) FROM group_messages WHERE sent_at IS NOT NULL",
            [],
            |row| row.get(0),
        )
        .unwrap();
    assert_eq!(dated, 1);
}

#[test]
fn a_column_is_added_with_values_or_not_at_all() {
    let db = Connection::open_in_memory().unwrap();
    db.execute_batch(
        "CREATE TABLE messages (id TEXT PRIMARY KEY, sender_username TEXT, recipient_username TEXT, content TEXT);
         INSERT INTO messages VALUES ('1', 'bob', 'eve', 'старое');
         CREATE TRIGGER stop BEFORE UPDATE ON messages BEGIN SELECT RAISE(ABORT, 'stop'); END;",
    )
    .unwrap();
    let why = run(&db, DbCall::Init).unwrap_err();
    assert!(why.starts_with("Cannot add a column with non-constant default"), "{}", why);
    assert!(db.is_autocommit());
    let columns: i64 = db
        .query_row(
            "SELECT COUNT(*) FROM pragma_table_info('messages') WHERE name = 'sent_at'",
            [],
            |row| row.get(0),
        )
        .unwrap();
    assert_eq!(columns, 0);
    db.execute_batch("DROP TRIGGER stop").unwrap();
    assert_eq!(run(&db, DbCall::Init), Ok(DbValue::Unit));
    let old = messages(run(
        &db,
        DbCall::GetUserMessages { username: s("bob"), limit: 10, offset: 0 },
    ));
    assert_eq!(old.len(), 1);
    assert!(old[0].timestamp > 1_600_000_000_000);
}

#[test]
fn a_message_without_a_time_is_left_alone() {
    let db = open();
    run(&db, DbCall::StoreMessage {
        sender: s("bob"),
        recipient: s("eve"),
        content: s("x"),
        timestamp: i64::MAX,
    })
    .unwrap();
    let undated = || -> i64 {
        db.query_row("SELECT COUNT(*) FROM messages WHERE sent_at IS NULL", [], |row| row.get(0))
            .unwrap()
    };
    assert_eq!(undated(), 1);
    assert_eq!(run(&db, DbCall::Init), Ok(DbValue::Unit));
    assert_eq!(run(&db, DbCall::Migrate), Ok(DbValue::Unit));
    assert_eq!(undated(), 1);
}

#[test]
fn an_old_database_keeps_its_rows() {
    let db = Connection::open_in_memory().unwrap();
    db.execute_batch(
        "CREATE TABLE messages (id TEXT PRIMARY KEY, sender_username TEXT, recipient_username TEXT, content TEXT);
         CREATE TABLE group_messages (id TEXT PRIMARY KEY, group_id TEXT, sender_username TEXT, content TEXT);
         CREATE TABLE channel_messages (id TEXT PRIMARY KEY, channel_id TEXT, sender_username TEXT, content TEXT);
         INSERT INTO messages VALUES ('1', 'bob', 'eve', 'старое');
         INSERT INTO group_messages VALUES ('2', 'g', 'bob', 'x');
         INSERT INTO channel_messages VALUES ('3', 'c', 'bob', 'y');",
    )
    .unwrap();
    let mut sent = Vec::new();
    assert_eq!(play(&db, AppState::start(&DbCall::Init), &mut sent), Ok(DbValue::Unit));
    assert_eq!(sent.len(), 1 + 3 * 3 + 2 + 6 + 6);
    let old = messages(run(
        &db,
        DbCall::GetUserMessages { username: s("bob"), limit: 10, offset: 0 },
    ));
    assert_eq!(old.len(), 1);
    assert_eq!(old[0].content, "старое");
    assert!(old[0].timestamp > 1_600_000_000_000);
    for table in ["group_messages", "channel_messages"] {
        let sql = format!("SELECT COUNT(*) FROM {} WHERE sent_at IS NOT NULL", table);
        let filled: i64 = db.query_row(&sql, [], |row| row.get(0)).unwrap();
        assert_eq!(filled, 1);
    }
    sent.clear();
    assert_eq!(play(&db, AppState::start(&DbCall::Init), &mut sent), Ok(DbValue::Unit));
    assert_eq!(sent.len(), 1 + 4 + 6 + 6);
}

#[test]
fn a_database_that_is_up_to_date_stays_as_it_is() {
    let db = Connection::open_in_memory().unwrap();
    db.execute_batch(
        "CREATE TABLE sessions (token TEXT, user_id TEXT);
         CREATE TABLE messages (id TEXT, sender_username TEXT, recipient_username TEXT, sent_at TIMESTAMP);
         CREATE TABLE group_messages (id TEXT, group_id TEXT, sent_at TIMESTAMP);
         CREATE TABLE channel_messages (id TEXT, channel_id TEXT, sent_at TIMESTAMP);",
    )
    .unwrap();
    let mut sent = Vec::new();
    assert_eq!(play(&db, AppState::start(&DbCall::Migrate), &mut sent), Ok(DbValue::Unit));
    assert_eq!(sent.len(), 4 + 1 + 6);
    assert!(sent[4].starts_with("CREATE TABLE IF NOT EXISTS fcm_tokens"));
    sent.clear();
    assert_eq!(play(&db, AppState::start(&DbCall::Migrate), &mut sent), Ok(DbValue::Unit));
    assert_eq!(sent.len(), 4 + 6);
}

#[test]
fn what_is_wrong_with_the_database_is_said() {
    let db = Connection::open_in_memory().unwrap();
    let begins = |outcome: Result<Answer, String>, label: &str| match outcome {
        Err(e) => assert!(e.starts_with(label) && e.len() > label.len(), "{}", e),
        other => panic!("{:?}", other),
    };
    begins(run(&db, DbCall::LoginUserByPhone { phone: s(""), password: s("") }), "Ошибка запроса: ");
    begins(run(&db, DbCall::CheckSession { token: s("") }), "Ошибка подготовки: ");
    begins(run(&db, DbCall::DeleteSession { token: s("") }), "Ошибка удаления сессии: ");
    begins(run(&db, DbCall::UserExists { username: s("") }), "Ошибка запроса: ");
    begins(run(&db, DbCall::GetFcmTokens { username: s("") }), "Ошибка запроса FCM: ");
    begins(run(&db, DbCall::ListUsers), "no such table");
    begins(run(&db, DbCall::GetProfile { username: s("") }), "Ошибка подготовки запроса: ");
    begins(
        run(&db, DbCall::SetUsername { old_username: s(""), new_username: s("") }),
        "Ошибка подготовки запроса: ",
    );
    begins(
        run(&db, DbCall::GetMembers { room: Room::Group, name: s("") }),
        "Ошибка запроса участников: ",
    );
    begins(
        run(&db, DbCall::GetMembers { room: Room::Channel, name: s("") }),
        "Ошибка запроса подписчиков: ",
    );
    begins(
        run(&db, DbCall::JoinRoom { room: Room::Channel, name: s(""), username: s("") }),
        "Ошибка запроса канала: ",
    );
    begins(
        run(&db, DbCall::CreateSession { user_id: s(""), device_name: s("") }),
        "Ошибка создания сессии: ",
    );
    begins(run(&db, DbCall::Migrate), "no such table");
}

#[test]
fn what_users_write_is_no_statement() {
    let db = open();
    let name = s("x'); DROP TABLE groups; --");
    run(&db, DbCall::CreateRoom { room: Room::Group, name: name.clone(), creator: s("a' OR '1") })
        .unwrap();
    assert_eq!(
        names(run(&db, DbCall::GetMembers { room: Room::Group, name: name.clone() })),
        vec![s("a' OR '1")]
    );
    assert_eq!(
        run(&db, DbCall::IsMember { room: Room::Group, name, username: s("' OR '1'='1") }),
        Ok(DbValue::Flag(false))
    );
}

#[test]
fn reading_changes_nothing() {
    let db = open();
    add_user(&db, "u1", "bob", "1");
    run(&db, DbCall::CreateRoom { room: Room::Group, name: s("g"), creator: s("bob") }).unwrap();
    let changes = |db: &Connection| -> i64 {
        db.query_row("SELECT total_changes()", [], |row| row.get(0)).unwrap()
    };
    let before = changes(&db);
    let bob = || s("bob");
    for call in [
        DbCall::LoginUserByPhone { phone: s("1"), password: s("x") },
        DbCall::UsernameById { user_id: s("u1") },
        DbCall::UserExists { username: bob() },
        DbCall::GetFcmTokens { username: bob() },
        DbCall::GetUserMessages { username: bob(), limit: 1, offset: 0 },
        DbCall::GetMembers { room: Room::Group, name: s("g") },
        DbCall::IsMember { room: Room::Group, name: s("g"), username: bob() },
        DbCall::IsChannelOwner { name: s("g"), username: bob() },
        DbCall::GetRoomMessages { room: Room::Group, name: s("g"), limit: 1, offset: 0 },
        DbCall::RoomHistory { room: Room::Group, username: bob() },
        DbCall::ListGroups { username: bob() },
        DbCall::ListChannels { username: bob() },
        DbCall::ListUsers,
        DbCall::GetProfile { username: bob() },
    ] {
        let _ = run(&db, call);
    }
    assert_eq!(changes(&db), before);
}

#[test]
fn a_registration_without_a_push_token_stores_none() {
    let db = open();
    let mut state = AppState::new();
    let mut first = vec![9u8];
    first.extend_from_slice(&[0u8; 31]);
    let (_, keys) = ws_handshake(&Incoming::Binary(first)).unwrap();
    let mut client = Client::connect(&mut state, 1, keys, 0);
    let mut data = vec![4u8, 0, 0, 0, 0];
    data.extend_from_slice(b"register|+1|pw|Ann|Lee");
    let mut event = Event::Frame { incoming: Incoming::Binary(data), now: 0, clock: 0 };
    loop {
        assert!(client.accepts(&event));
        match client.step(&mut state, event).next {
            Next::Ask(call) => event = Event::Db(run(&db, call)),
            Next::Read => break,
            Next::Stop => panic!("not let in"),
        }
    }
    assert_eq!(client.phase, Phase::Ready);
    assert_eq!(client.name, "+1");
    let names: (String, String, String) = db
        .query_row("SELECT username, first_name, last_name FROM users", [], |row| {
            Ok((row.get(0)?, row.get(1)?, row.get(2)?))
        })
        .unwrap();
    assert_eq!(names, (s("+1"), s("Ann"), s("Lee")));
    let tokens: i64 =
        db.query_row("SELECT COUNT(*) FROM fcm_tokens", [], |row| row.get(0)).unwrap();
    assert_eq!(tokens, 0);
}

#[test]
fn joining_and_leaving_twice_and_in_turn() {
    let db = open();
    for room in [Room::Group, Room::Channel] {
        run(&db, DbCall::CreateRoom { room, name: s("r"), creator: s("bob") }).unwrap();
        run(&db, DbCall::CreateRoom { room, name: s("other"), creator: s("eve") }).unwrap();
        let members = |name: &str| {
            let mut list = names(run(&db, DbCall::GetMembers { room, name: s(name) }));
            list.sort();
            list
        };
        let join = || run(&db, DbCall::JoinRoom { room, name: s("r"), username: s("eve") });
        let leave = || run(&db, DbCall::LeaveRoom { room, name: s("r"), username: s("eve") });
        for _ in 0..2 {
            assert_eq!(join(), Ok(DbValue::Unit));
            assert_eq!(members("r"), vec![s("bob"), s("eve")]);
        }
        let owner = DbCall::JoinRoom { room, name: s("r"), username: s("bob") };
        assert_eq!(run(&db, owner), Ok(DbValue::Unit));
        assert_eq!(members("r"), vec![s("bob"), s("eve")]);
        for _ in 0..2 {
            assert_eq!(leave(), Ok(DbValue::Unit));
            assert_eq!(members("r"), vec![s("bob")]);
        }
        assert_eq!(members("other"), vec![s("eve")]);
    }
}

#[test]
fn a_session_is_ended_twice_without_harm() {
    let db = open();
    add_user(&db, "u1", "bob", "1");
    for token in ["a", "b"] {
        let task = AppState::session(token, "u1", "d");
        play(&db, DbStep::Ask(task), &mut Vec::new()).unwrap();
    }
    for _ in 0..2 {
        assert_eq!(run(&db, DbCall::DeleteSession { token: s("a") }), Ok(DbValue::Unit));
        assert_eq!(
            run(&db, DbCall::CheckSession { token: s("a") }),
            Err(s("Недействительный токен"))
        );
    }
    assert_eq!(
        run(&db, DbCall::CheckSession { token: s("b") }),
        Ok(DbValue::Account { user_id: s("u1"), username: s("bob") })
    );
}

#[test]
fn the_password_stays_when_names_change() {
    let db = open();
    add_user(&db, "u1", "bob", "1");
    run(&db, DbCall::SetUsername { old_username: s("bob"), new_username: s("rob") }).unwrap();
    run(&db, DbCall::SetName { username: s("rob"), first: s("R"), last: s("B") }).unwrap();
    run(&db, DbCall::SetDisplayName { username: s("rob"), display_name: s("Robby") }).unwrap();
    let login = |password: &str| {
        run(&db, DbCall::LoginUserByPhone { phone: s("1"), password: s(password) })
    };
    assert_eq!(login("correctbatteryhorsestapler"), Ok(DbValue::Text(s("u1"))));
    assert_eq!(login("Robby"), Err(s("Неверный телефон или пароль")));
}

#[test]
fn the_owner_of_a_group_stays_the_owner() {
    let db = open();
    run(&db, DbCall::CreateRoom { room: Room::Group, name: s("r"), creator: s("bob") }).unwrap();
    run(&db, DbCall::JoinRoom { room: Room::Group, name: s("r"), username: s("eve") }).unwrap();
    run(&db, DbCall::JoinRoom { room: Room::Group, name: s("r"), username: s("bob") }).unwrap();
    let role = |name: &str| -> String {
        db.query_row("SELECT role FROM group_members WHERE username = ?", [name], |row| row.get(0))
            .unwrap()
    };
    assert_eq!(role("bob"), "owner");
    assert_eq!(role("eve"), "member");
}

#[test]
fn sessions_outlive_a_change_of_name() {
    let db = open();
    add_user(&db, "u1", "bob", "1");
    add_user(&db, "u2", "eve", "2");
    for (token, user) in [("a", "u1"), ("b", "u2"), ("c", "u1")] {
        let task = AppState::session(token, user, "d");
        assert_eq!(play(&db, DbStep::Ask(task), &mut Vec::new()), Ok(DbValue::Text(s(token))));
    }
    let check = |token: &str| run(&db, DbCall::CheckSession { token: s(token) });
    let account = |id: &str, name: &str| {
        Ok(DbValue::Account { user_id: s(id), username: s(name) })
    };
    assert_eq!(check("a"), account("u1", "bob"));
    assert_eq!(check("c"), account("u1", "bob"));
    run(&db, DbCall::SetUsername { old_username: s("bob"), new_username: s("rob") }).unwrap();
    assert_eq!(check("a"), account("u1", "rob"));
    assert_eq!(check("c"), account("u1", "rob"));
    assert_eq!(check("b"), account("u2", "eve"));
}

#[test]
fn a_refused_login_does_not_say_why() {
    let db = open();
    add_user(&db, "u1", "bob", "1");
    let contents = || -> (i64, String) {
        db.query_row(
            "SELECT (SELECT COUNT(*) FROM sessions), group_concat(id || username || phone || password_hash) FROM users",
            [],
            |row| Ok((row.get(0).unwrap(), row.get(1).unwrap())),
        )
        .unwrap()
    };
    let before = contents();
    let login = |phone: &str, password: &str| {
        run(&db, DbCall::LoginUserByPhone { phone: s(phone), password: s(password) })
    };
    assert_eq!(login("9", "x"), Err(s("Неверный телефон или пароль")));
    assert_eq!(login("1", "x"), login("9", "correctbatteryhorsestapler"));
    assert_eq!(login("1", "correctbatteryhorsestapler"), Ok(DbValue::Text(s("u1"))));
    assert_eq!(contents(), before);
}

#[test]
fn pages_neither_overlap_nor_leave_a_gap() {
    let db = open();
    run(&db, DbCall::CreateRoom { room: Room::Channel, name: s("c"), creator: s("bob") }).unwrap();
    for k in [4i64, 1, 3, 0, 2] {
        let (content, timestamp) = (format!("{}", k), 1_000_000 * k + 999);
        run(&db, DbCall::StoreMessage {
            sender: s("bob"),
            recipient: s("eve"),
            content: content.clone(),
            timestamp,
        })
        .unwrap();
        run(&db, DbCall::StoreRoomMessage {
            room: Room::Channel,
            name: s("c"),
            sender: s("bob"),
            content,
            timestamp,
        })
        .unwrap();
    }
    let private = |limit: i64, offset: i64| {
        messages(run(&db, DbCall::GetUserMessages { username: s("eve"), limit, offset }))
    };
    let posted = |limit: i64, offset: i64| {
        messages(run(&db, DbCall::GetRoomMessages {
            room: Room::Channel,
            name: s("c"),
            limit,
            offset,
        }))
    };
    let expected = |recipient: &str| -> Vec<StoredMessage<String>> {
        (0..5)
            .map(|k| message("bob", recipient, &format!("{}", k), 1_000_000 * k))
            .collect()
    };
    for a in 0..6 {
        for b in 0..6 {
            let mut both = private(a, 0);
            both.extend(private(b, a));
            assert_eq!(both, private(a + b, 0));
            let mut both = posted(a, 0);
            both.extend(posted(b, a));
            assert_eq!(both, posted(a + b, 0));
        }
    }
    assert_eq!(private(5, 0), expected("eve"));
    assert_eq!(posted(5, 0), expected("c"));
}

#[test]
fn times_are_kept_to_the_second_up_to_the_last() {
    let db = open();
    for (content, timestamp) in [("first", 0), ("last", 253_402_300_799_999)] {
        run(&db, DbCall::StoreMessage {
            sender: s("bob"),
            recipient: s("eve"),
            content: s(content),
            timestamp,
        })
        .unwrap();
    }
    assert_eq!(
        messages(run(
            &db,
            DbCall::GetUserMessages { username: s("bob"), limit: 2, offset: 0 }
        )),
        vec![
            message("bob", "eve", "first", 0),
            message("bob", "eve", "last", 253_402_300_799_000),
        ]
    );
}
