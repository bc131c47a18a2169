use relay_server::crypto::{encrypted_frame, Incoming, SessionKeys};
use relay_server::db::{Answer, DbCall, DbValue, Room, StoredMessage};
use relay_server::notice::{private_note, room_note};
use relay_server::posting::take_post;
use relay_server::state::{AppState, Peer};
use relay_server::turn::{Action, Client, Deed, Event, Next, Phase, Turn};
use relay_server::wire::user_frame;

fn s(text: &str) -> String {
    text.to_string()
}

fn keys(n: u8) -> SessionKeys {
    SessionKeys { key: [n; 32] }
}

fn system(text: &str) -> Deed {
    Action::System { text: s(text) }
}

fn sent(conn: u64, sender: &str, recipient: &str, plaintext: &[u8], timestamp: i64) -> Deed {
    Action::Encrypted {
        conn,
        keys: keys(conn as u8),
        sender: s(sender),
        recipient: s(recipient),
        plaintext: plaintext.to_vec(),
        timestamp,
    }
}

fn broadcast(text: &str, exclude: &str) -> Deed {
    Action::Broadcast { text: s(text), exclude: s(exclude) }
}

fn frame(data: Vec<u8>, now: u64) -> Event {
    Event::Frame { incoming: Incoming::Binary(data), now, clock: 777 }
}

fn step(client: &mut Client, state: &mut AppState, event: Event) -> Turn {
    assert!(client.accepts(&event));
    client.step(state, event)
}

fn db(client: &mut Client, state: &mut AppState, outcome: Result<Answer, String>) -> Turn {
    step(client, state, Event::Db(outcome))
}

fn auth(text: &str) -> Event {
    let mut data = vec![4, 0, 0, 0, 0];
    data.extend_from_slice(text.as_bytes());
    frame(data, 0)
}

fn command(text: &str) -> Event {
    let mut data = vec![3, 0, 0, 0, 0];
    data.extend_from_slice(text.as_bytes());
    frame(data, 0)
}

fn say(client: &Client, recipient: &str, plaintext: &[u8], timestamp: i64) -> Event {
    let nonce = [5u8; 12];
    let data =
        encrypted_frame(&client.session.keys, &nonce, "кто угодно", recipient, plaintext, timestamp)
            .unwrap();
    frame(data, 0)
}

fn names(list: &[&str]) -> Result<Answer, String> {
    Ok(DbValue::Names(list.iter().map(|n| n.to_string()).collect()))
}

/// A client that has signed in as `name` with a token, and has no history.
fn ready(state: &mut AppState, conn: u64, name: &str) -> Client {
    let mut client = Client::enter(state, conn, format!("temp{}", conn), keys(conn as u8), 0);
    let token = format!("tok{}", conn);
    step(&mut client, state, auth(&format!("token|{}|dev", token)));
    db(
        &mut client,
        state,
        Ok(DbValue::Account { user_id: format!("id-{}", name), username: s(name) }),
    );
    db(&mut client, state, Ok(DbValue::Messages(vec![])));
    db(&mut client, state, Ok(DbValue::Messages(vec![])));
    let turn = db(&mut client, state, Ok(DbValue::Messages(vec![])));
    assert_eq!(turn.next, Next::Read);
    client
}

fn listeners(state: &AppState, exclude: Option<&str>) -> Vec<u64> {
    let mut conns: Vec<u64> =
        state.broadcast_system_message("x", exclude).iter().map(|(c, _)| *c).collect();
    conns.sort();
    conns
}

#[test]
fn a_connection_is_known_before_its_user_is() {
    let mut state = AppState::new();
    let a = Client::connect(&mut state, 1, keys(1), 5);
    let b = Client::connect(&mut state, 2, keys(2), 6);
    assert_ne!(a.temp_id, b.temp_id);
    assert_eq!(a.temp_id.len(), 36);
    assert_eq!(a.phase, Phase::Auth);
    assert_eq!(a.session.last_msg_time, 5);
    assert_eq!(listeners(&state, None), vec![1, 2]);
}

#[test]
fn signing_in_with_a_token() {
    let mut state = AppState::new();
    let mut client = Client::enter(&mut state, 1, s("temp"), keys(1), 0);
    let turn = step(&mut client, &mut state, auth("token|tok|dev|x|push"));
    assert_eq!(turn.actions, vec![]);
    assert_eq!(turn.next, Next::Ask(DbCall::CheckSession { token: s("tok") }));
    let account = DbValue::Account { user_id: s("u1"), username: s("bob") };
    let turn = db(&mut client, &mut state, Ok(account));
    assert_eq!(turn.actions, vec![system("Успех|u1|tok|bob")]);
    assert_eq!(
        turn.next,
        Next::Ask(DbCall::SaveFcmToken { user_id: s("u1"), token: s("push"), device_name: s("dev") })
    );
    assert!(!state.is_online("bob"));
    let turn = db(&mut client, &mut state, Err(s("ignored")));
    assert_eq!(turn.actions, vec![broadcast("[Система] Пользователь bob подключился", "bob")]);
    assert_eq!(
        turn.next,
        Next::Ask(DbCall::GetUserMessages { username: s("bob"), limit: 100, offset: 0 })
    );
    assert!(state.is_online("bob"));
    assert_eq!(client.session.user_id, Some(s("u1")));
    assert_eq!(client.session.username, Some(s("bob")));
    assert_eq!(client.session.token, Some(s("tok")));
    assert_eq!(client.name, "bob");
    assert_eq!(state.devices("bob")[0].keys, keys(1));
}

#[test]
fn logging_in_with_a_password() {
    let mut state = AppState::new();
    let mut client = Client::enter(&mut state, 1, s("temp"), keys(1), 0);
    let turn = step(&mut client, &mut state, auth("login|+7|pw"));
    assert_eq!(
        turn.next,
        Next::Ask(DbCall::LoginUserByPhone { phone: s("+7"), password: s("pw") })
    );
    let turn = db(&mut client, &mut state, Ok(DbValue::Text(s("u1"))));
    assert_eq!(turn.next, Next::Ask(DbCall::UsernameById { user_id: s("u1") }));
    let turn = db(&mut client, &mut state, Ok(DbValue::Text(s("bob"))));
    assert_eq!(
        turn.next,
        Next::Ask(DbCall::CreateSession { user_id: s("u1"), device_name: s("unknown") })
    );
    let turn = db(&mut client, &mut state, Ok(DbValue::Text(s("tok"))));
    assert_eq!(
        turn.actions,
        vec![
            system("Успех|u1|tok|bob"),
            broadcast("[Система] Пользователь bob подключился", "bob")
        ]
    );
    assert_eq!(client.session.token, Some(s("tok")));
}

#[test]
fn the_phone_number_stands_in_for_the_name() {
    let mut state = AppState::new();
    let mut client = Client::enter(&mut state, 1, s("temp"), keys(1), 0);
    step(&mut client, &mut state, auth("login|+7|pw"));
    db(&mut client, &mut state, Ok(DbValue::Text(s("u1"))));
    db(&mut client, &mut state, Err(s("Пользователь не найден")));
    let turn = db(&mut client, &mut state, Ok(DbValue::Text(s("tok"))));
    assert_eq!(turn.actions[0], system("Успех|u1|tok|+7"));
    assert!(state.is_online("+7"));
}

#[test]
fn registering() {
    let mut state = AppState::new();
    let mut client = Client::enter(&mut state, 1, s("temp"), keys(1), 0);
    let turn = step(&mut client, &mut state, auth("register|+7|pw|A|B|bob|dev|push"));
    assert_eq!(
        turn.next,
        Next::Ask(DbCall::RegisterUser {
            username: s("bob"),
            phone: s("+7"),
            password: s("pw"),
            first_name: Some(s("A")),
            last_name: Some(s("B")),
        })
    );
    let turn = db(&mut client, &mut state, Ok(DbValue::Text(s("u1"))));
    assert_eq!(
        turn.next,
        Next::Ask(DbCall::CreateSession { user_id: s("u1"), device_name: s("dev") })
    );
    let turn = db(&mut client, &mut state, Ok(DbValue::Text(s("tok"))));
    assert_eq!(turn.actions, vec![system("Успех|u1|tok|bob")]);
    assert_eq!(
        turn.next,
        Next::Ask(DbCall::SaveFcmToken { user_id: s("u1"), token: s("push"), device_name: s("dev") })
    );
}

#[test]
fn whoever_is_refused_is_told_why_and_stays_unknown() {
    let refused = |text: &str, outcomes: Vec<Result<Answer, String>>| {
        let mut state = AppState::new();
        let mut client = Client::enter(&mut state, 1, s("temp"), keys(1), 0);
        let mut turn = step(&mut client, &mut state, auth(text));
        for outcome in outcomes {
            turn = db(&mut client, &mut state, outcome);
        }
        assert_eq!(turn.next, Next::Stop);
        assert_eq!(client.phase, Phase::Closed);
        assert!(client.session.username.is_none());
        assert_eq!(listeners(&state, None), vec![1]);
        turn.actions
    };
    assert_eq!(
        refused("token|t|d", vec![Err(s("Недействительный токен"))]),
        vec![system("[Система] Ошибка: Недействительный токен")]
    );
    assert_eq!(refused("login|1|2", vec![Err(s("x"))]), vec![system("[Система] Ошибка: x")]);
    assert_eq!(refused("register|1|2", vec![Err(s("x"))]), vec![system("[Система] Ошибка: x")]);
    assert_eq!(
        refused("register|1|2", vec![Ok(DbValue::Text(s("u"))), Err(s("x"))]),
        vec![system("[Система] Ошибка создания сессии: x")]
    );
    assert_eq!(
        refused("hello|1|2", vec![]),
        vec![system("[Система] Ошибка: Неизвестная команда hello")]
    );
    assert_eq!(refused("token|t", vec![]), vec![]);
}

#[test]
fn whatever_else_comes_first_ends_the_connection() {
    for incoming in [
        Incoming::Other,
        Incoming::Failed(s("x")),
        Incoming::End,
        Incoming::Binary(vec![]),
        Incoming::Binary(vec![1, 2, 3]),
    ] {
        let mut state = AppState::new();
        let mut client = Client::enter(&mut state, 1, s("temp"), keys(1), 0);
        let turn = step(&mut client, &mut state, Event::Frame { incoming, now: 0, clock: 0 });
        assert_eq!(turn.actions, vec![]);
        assert_eq!(turn.next, Next::Stop);
    }
    let mut state = AppState::new();
    let client = Client::enter(&mut state, 1, s("temp"), keys(1), 0);
    assert!(!client.accepts(&frame(vec![4, 0, 0], 0)));
    assert!(!client.accepts(&Event::Db(Ok(DbValue::Unit))));
}

#[test]
fn the_history_comes_before_the_first_message() {
    let mut state = AppState::new();
    let mut client = Client::enter(&mut state, 1, s("temp"), keys(1), 0);
    step(&mut client, &mut state, auth("token|tok|dev"));
    let account = DbValue::Account { user_id: s("u1"), username: s("bob") };
    db(&mut client, &mut state, Ok(account));
    let message = |recipient: &str| StoredMessage {
        sender: s("eve"),
        recipient: s(recipient),
        content: s("привет"),
        timestamp: 9,
    };
    let turn = db(&mut client, &mut state, Ok(DbValue::Messages(vec![message("bob")])));
    assert_eq!(turn.actions, vec![sent(1, "eve", "bob", "привет".as_bytes(), 9)]);
    assert_eq!(
        turn.next,
        Next::Ask(DbCall::RoomHistory { room: Room::Group, username: s("bob") })
    );
    let turn = db(&mut client, &mut state, Ok(DbValue::Messages(vec![message("g"), message("h")])));
    assert_eq!(
        turn.actions,
        vec![
            sent(1, "eve", "#g", "привет".as_bytes(), 9),
            sent(1, "eve", "#h", "привет".as_bytes(), 9)
        ]
    );
    assert_eq!(
        turn.next,
        Next::Ask(DbCall::RoomHistory { room: Room::Channel, username: s("bob") })
    );
    let turn = db(&mut client, &mut state, Ok(DbValue::Messages(vec![message("c")])));
    assert_eq!(turn.actions, vec![sent(1, "eve", "&c", "привет".as_bytes(), 9)]);
    assert_eq!(turn.next, Next::Read);
    assert_eq!(client.phase, Phase::Ready);
}

#[test]
fn a_history_that_cannot_be_read_is_left_out() {
    let mut state = AppState::new();
    let mut client = Client::enter(&mut state, 1, s("temp"), keys(1), 0);
    step(&mut client, &mut state, auth("token|tok|dev"));
    let account = DbValue::Account { user_id: s("u1"), username: s("bob") };
    db(&mut client, &mut state, Ok(account));
    for _ in 0..3 {
        let turn = db(&mut client, &mut state, Err(s("x")));
        assert_eq!(turn.actions, vec![]);
    }
    assert_eq!(client.phase, Phase::Ready);
}

#[test]
fn a_user_without_a_name_has_no_history() {
    let mut state = AppState::new();
    let mut client = Client::enter(&mut state, 1, s("temp"), keys(1), 0);
    step(&mut client, &mut state, auth("token|tok|dev"));
    let account = DbValue::Account { user_id: s("u1"), username: s("") };
    let turn = db(&mut client, &mut state, Ok(account));
    assert_eq!(turn.next, Next::Read);
    assert_eq!(client.phase, Phase::Ready);
}

#[test]
fn a_private_message_reaches_every_device_and_comes_back() {
    let mut state = AppState::new();
    let mut bob = ready(&mut state, 1, "bob");
    ready(&mut state, 2, "eve");
    ready(&mut state, 3, "eve");
    let turn = step(&mut bob, &mut state, say_from(&bob_keys(), "eve", b"hello", 42));
    assert_eq!(turn.actions, vec![]);
    assert_eq!(turn.next, Next::Ask(DbCall::UserExists { username: s("eve") }));
    let turn = db(&mut bob, &mut state, Ok(DbValue::Flag(true)));
    assert_eq!(
        turn.next,
        Next::Ask(DbCall::StoreMessage {
            sender: s("bob"),
            recipient: s("eve"),
            content: s("hello"),
            timestamp: 42,
        })
    );
    let turn = db(&mut bob, &mut state, Ok(DbValue::Unit));
    assert_eq!(
        turn.actions,
        vec![
            sent(1, "bob", "eve", b"hello", 42),
            sent(2, "bob", "eve", b"hello", 42),
            sent(3, "bob", "eve", b"hello", 42)
        ]
    );
    assert_eq!(turn.next, Next::Ask(DbCall::GetFcmTokens { username: s("eve") }));
    let turn = db(&mut bob, &mut state, names(&["f1", "f2"]));
    assert_eq!(
        turn.actions,
        vec![
            Action::Push { token: s("f1"), note: private_note("bob", "hello") },
            Action::Push { token: s("f2"), note: private_note("bob", "hello") }
        ]
    );
    assert_eq!(turn.next, Next::Read);
}

fn bob_keys() -> SessionKeys {
    keys(1)
}

fn say_from(keys: &SessionKeys, recipient: &str, plaintext: &[u8], timestamp: i64) -> Event {
    frame(
        encrypted_frame(keys, &[8u8; 12], "eve", recipient, plaintext, timestamp).unwrap(),
        0,
    )
}

#[test]
fn the_name_that_a_message_states_is_not_believed() {
    let mut state = AppState::new();
    let mut bob = ready(&mut state, 1, "bob");
    let event = say_from(&bob_keys(), "eve", b"x", 1);
    step(&mut bob, &mut state, event);
    let turn = db(&mut bob, &mut state, Ok(DbValue::Flag(true)));
    match turn.next {
        Next::Ask(DbCall::StoreMessage { sender, .. }) => assert_eq!(sender, "bob"),
        other => panic!("{:?}", other),
    }
}

#[test]
fn a_message_to_nobody_is_refused() {
    for outcome in [Ok(DbValue::Flag(false)), Err(s("x"))] {
        let mut state = AppState::new();
        let mut bob = ready(&mut state, 1, "bob");
        let event = say(&bob, "ghost", b"hello", 1);
        step(&mut bob, &mut state, event);
        let turn = db(&mut bob, &mut state, outcome);
        assert_eq!(turn.actions, vec![system("[Система] Пользователь ghost не найден")]);
        assert_eq!(turn.next, Next::Read);
    }
}

#[test]
fn a_message_that_could_not_be_stored_is_sent_all_the_same() {
    let mut state = AppState::new();
    let mut bob = ready(&mut state, 1, "bob");
    let event = say(&bob, "eve", b"hello", 1);
    step(&mut bob, &mut state, event);
    db(&mut bob, &mut state, Ok(DbValue::Flag(true)));
    let turn = db(&mut bob, &mut state, Err(s("disk full")));
    assert_eq!(turn.actions, vec![sent(1, "bob", "eve", b"hello", 1)]);
    let turn = db(&mut bob, &mut state, Err(s("x")));
    assert_eq!(turn.actions, vec![]);
    assert_eq!(turn.next, Next::Read);
}

#[test]
fn bytes_that_are_no_text_are_stored_as_well_as_they_can_be() {
    let mut state = AppState::new();
    let mut bob = ready(&mut state, 1, "bob");
    let event = say(&bob, "eve", &[b'a', 0xff, b'b'], 1);
    step(&mut bob, &mut state, event);
    let turn = db(&mut bob, &mut state, Ok(DbValue::Flag(true)));
    match turn.next {
        Next::Ask(DbCall::StoreMessage { content, .. }) => assert_eq!(content, "a\u{fffd}b"),
        other => panic!("{:?}", other),
    }
    let turn = db(&mut bob, &mut state, Ok(DbValue::Unit));
    assert_eq!(turn.actions, vec![sent(1, "bob", "eve", &[b'a', 0xff, b'b'], 1)]);
}

#[test]
fn a_message_without_a_time_gets_the_time_of_its_arrival() {
    let mut state = AppState::new();
    let mut bob = ready(&mut state, 1, "bob");
    let mut data = encrypted_frame(&bob_keys(), &[8u8; 12], "", "eve", b"x", 5).unwrap();
    data.truncate(data.len() - 8);
    step(&mut bob, &mut state, frame(data, 0));
    let turn = db(&mut bob, &mut state, Ok(DbValue::Flag(true)));
    match turn.next {
        Next::Ask(DbCall::StoreMessage { timestamp, .. }) => assert_eq!(timestamp, 777),
        other => panic!("{:?}", other),
    }
}

#[test]
fn what_cannot_be_decrypted_is_passed_over() {
    let mut state = AppState::new();
    let mut bob = ready(&mut state, 1, "bob");
    let turn = step(&mut bob, &mut state, say_from(&keys(9), "eve", b"hello", 1));
    assert_eq!(turn.actions, vec![]);
    assert_eq!(turn.next, Next::Read);
}

#[test]
fn what_is_of_no_use_is_passed_over() {
    let mut state = AppState::new();
    let mut bob = ready(&mut state, 1, "bob");
    for event in [
        frame(vec![], 0),
        frame(vec![9, 1], 0),
        frame(vec![2], 0),
        Event::Frame { incoming: Incoming::Other, now: 0, clock: 0 },
        command("   "),
    ] {
        let turn = step(&mut bob, &mut state, event);
        assert_eq!(turn.actions, vec![]);
        assert_eq!(turn.next, Next::Read);
    }
    assert_eq!(bob.session.msg_count, 3);
}

#[test]
fn a_message_must_be_complete_unless_it_is_not_looked_at() {
    let mut state = AppState::new();
    let mut bob = ready(&mut state, 1, "bob");
    let part = user_frame("a", "b", &[0u8; 12], &[1, 2, 3], 1)[..20].to_vec();
    assert!(!bob.accepts(&frame(part.clone(), 0)));
    assert!(!bob.accepts(&frame(vec![3, 0, 0, 0], 0)));
    for _ in 0..10 {
        step(&mut bob, &mut state, frame(vec![9], 0));
    }
    assert!(bob.accepts(&frame(part.clone(), 0)));
    let turn = step(&mut bob, &mut state, frame(part, 0));
    assert_eq!(turn.actions, vec![system("[Система] Слишком много сообщений, подождите")]);
    assert_eq!(turn.next, Next::Read);
}

#[test]
fn too_many_messages_are_not_looked_at() {
    let mut state = AppState::new();
    let mut bob = ready(&mut state, 1, "bob");
    for _ in 0..10 {
        let turn = step(&mut bob, &mut state, command("/listusers x"));
        assert_eq!(turn.next, Next::Ask(DbCall::ListUsers));
        db(&mut bob, &mut state, names(&[]));
    }
    let turn = step(&mut bob, &mut state, command("/listusers"));
    assert_eq!(turn.actions, vec![system("[Система] Слишком много сообщений, подождите")]);
    let mut late = vec![3, 0, 0, 0, 0];
    late.extend_from_slice(b"/profile");
    let turn = step(&mut bob, &mut state, frame(late, 1_000_000_001));
    assert_eq!(turn.next, Next::Ask(DbCall::GetProfile { username: s("bob") }));
}

#[test]
fn a_message_to_a_group_goes_round_it() {
    let mut state = AppState::new();
    let mut bob = ready(&mut state, 1, "bob");
    ready(&mut state, 2, "eve");
    ready(&mut state, 3, "eve");
    ready(&mut state, 4, "tom");
    let event = say(&bob, "##g", b"hi", 5);
    let turn = step(&mut bob, &mut state, event);
    assert_eq!(
        turn.next,
        Next::Ask(DbCall::IsMember { room: Room::Group, name: s("g"), username: s("bob") })
    );
    let turn = db(&mut bob, &mut state, Ok(DbValue::Flag(true)));
    assert_eq!(
        turn.next,
        Next::Ask(DbCall::StoreRoomMessage {
            room: Room::Group,
            name: s("g"),
            sender: s("bob"),
            content: s("hi"),
            timestamp: 5,
        })
    );
    let turn = db(&mut bob, &mut state, Ok(DbValue::Unit));
    assert_eq!(turn.next, Next::Ask(DbCall::GetMembers { room: Room::Group, name: s("g") }));
    let turn = db(&mut bob, &mut state, names(&["eve", "bob", "ann", "joe", "tom"]));
    assert_eq!(
        turn.actions,
        vec![
            sent(1, "bob", "#g", b"hi", 5),
            sent(2, "bob", "#g", b"hi", 5),
            sent(3, "bob", "#g", b"hi", 5)
        ]
    );
    assert_eq!(turn.next, Next::Ask(DbCall::GetFcmTokens { username: s("ann") }));
    let turn = db(&mut bob, &mut state, names(&["f1"]));
    assert_eq!(
        turn.actions,
        vec![Action::Push { token: s("f1"), note: room_note(Room::Group, "g", "bob", "hi") }]
    );
    assert_eq!(turn.next, Next::Ask(DbCall::GetFcmTokens { username: s("joe") }));
    let turn = db(&mut bob, &mut state, Err(s("x")));
    assert_eq!(turn.actions, vec![sent(4, "bob", "#g", b"hi", 5)]);
    assert_eq!(turn.next, Next::Read);
}

#[test]
fn only_members_write_to_a_group() {
    for outcome in [Ok(DbValue::Flag(false)), Err(s("x"))] {
        let mut state = AppState::new();
        let mut bob = ready(&mut state, 1, "bob");
        let event = say(&bob, "#g", b"hi", 5);
        step(&mut bob, &mut state, event);
        let turn = db(&mut bob, &mut state, outcome);
        assert_eq!(turn.actions, vec![system("[Система] Вы не состоите в этой группе")]);
        assert_eq!(turn.next, Next::Read);
    }
}

#[test]
fn only_the_owner_writes_to_a_channel() {
    let mut state = AppState::new();
    let mut bob = ready(&mut state, 1, "bob");
    ready(&mut state, 2, "eve");
    let mut ask = |outcomes: Vec<Result<Answer, String>>| {
        let event = say(&bob, "&c", b"hi", 5);
        let mut turn = step(&mut bob, &mut state, event);
        assert_eq!(
            turn.next,
            Next::Ask(DbCall::IsMember { room: Room::Channel, name: s("c"), username: s("bob") })
        );
        for outcome in outcomes {
            turn = db(&mut bob, &mut state, outcome);
        }
        turn
    };
    let turn = ask(vec![Ok(DbValue::Flag(false))]);
    assert_eq!(turn.actions, vec![system("[Система] Вы не подписаны на этот канал")]);
    let turn = ask(vec![Ok(DbValue::Flag(true)), Ok(DbValue::Flag(false))]);
    assert_eq!(
        turn.actions,
        vec![system("[Система] Только владелец канала может отправлять сообщения")]
    );
    let turn = ask(vec![
        Ok(DbValue::Flag(true)),
        Ok(DbValue::Flag(true)),
        Ok(DbValue::Unit),
        names(&["bob", "eve", "ann"]),
    ]);
    assert_eq!(
        turn.actions,
        vec![sent(1, "bob", "&c", b"hi", 5), sent(2, "bob", "&c", b"hi", 5)]
    );
    assert_eq!(turn.next, Next::Ask(DbCall::GetFcmTokens { username: s("ann") }));
    let turn = db(&mut bob, &mut state, names(&["f"]));
    assert_eq!(
        turn.actions,
        vec![Action::Push { token: s("f"), note: room_note(Room::Channel, "c", "bob", "hi") }]
    );
    assert_eq!(turn.next, Next::Read);
}

#[test]
fn a_command_is_the_same_in_a_message_and_on_its_own() {
    let mut state = AppState::new();
    let mut bob = ready(&mut state, 1, "bob");
    let event = say(&bob, "eve", "/joingroup кот и пёс".as_bytes(), 1);
    let in_message = step(&mut bob, &mut state, event).next;
    db(&mut bob, &mut state, Ok(DbValue::Unit));
    let alone = step(&mut bob, &mut state, command("/joingroup кот и пёс")).next;
    assert_eq!(in_message, alone);
    let turn = db(&mut bob, &mut state, Ok(DbValue::Unit));
    assert_eq!(
        turn.actions,
        vec![system("[Система] Вы присоединились к группе кот и пёс")]
    );
    assert_eq!(turn.next, Next::Read);
    let event = say(&bob, "eve", b"/joingroup", 1);
    assert_eq!(
        step(&mut bob, &mut state, event).actions,
        vec![system("[Система] Использование: /joingroup <название>")]
    );
}

#[test]
fn an_unknown_command_is_named_by_its_first_word_or_in_full() {
    let mut state = AppState::new();
    let mut bob = ready(&mut state, 1, "bob");
    let event = say(&bob, "eve", b"/nope a b", 1);
    assert_eq!(
        step(&mut bob, &mut state, event).actions,
        vec![system("[Система] Неизвестная команда: /nope")]
    );
    assert_eq!(
        step(&mut bob, &mut state, command("/nope a b")).actions,
        vec![system("[Система] Неизвестная команда: /nope a b")]
    );
    assert_eq!(
        step(&mut bob, &mut state, command("hello")).actions,
        vec![system("[Система] Неизвестная команда: hello")]
    );
}

#[test]
fn a_new_name_is_known_while_the_old_one_speaks() {
    let mut state = AppState::new();
    let mut bob = ready(&mut state, 1, "bob");
    step(&mut bob, &mut state, command("/setusername rob"));
    let turn = db(&mut bob, &mut state, Ok(DbValue::Unit));
    assert_eq!(turn.actions, vec![system("[Система] Username изменён на rob")]);
    assert_eq!(bob.session.username, Some(s("rob")));
    assert_eq!(bob.name, "bob");
    assert_eq!(listeners(&state, Some("rob")), Vec::<u64>::new());
    assert_eq!(listeners(&state, Some("bob")), vec![1]);
    assert!(state.is_online("bob") && !state.is_online("rob"));
    let turn = step(&mut bob, &mut state, command("/listgroups"));
    assert_eq!(turn.next, Next::Ask(DbCall::ListGroups { username: s("bob") }));
}

#[test]
fn a_name_that_is_refused_changes_nothing() {
    let mut state = AppState::new();
    let mut bob = ready(&mut state, 1, "bob");
    step(&mut bob, &mut state, command("/setusername rob"));
    let turn = db(&mut bob, &mut state, Err(s("Username уже занят")));
    assert_eq!(turn.actions, vec![system("[Система] Ошибка: Username уже занят")]);
    assert_eq!(bob.session.username, Some(s("bob")));
    assert_eq!(listeners(&state, Some("bob")), Vec::<u64>::new());
}

#[test]
fn leaving() {
    for incoming in [Incoming::End, Incoming::Failed(s("reset"))] {
        let mut state = AppState::new();
        let mut bob = ready(&mut state, 1, "bob");
        ready(&mut state, 2, "bob");
        ready(&mut state, 3, "eve");
        let turn = step(&mut bob, &mut state, Event::Frame { incoming, now: 0, clock: 0 });
        assert_eq!(turn.actions, vec![broadcast("[Система] Пользователь bob отключился", "bob")]);
        assert_eq!(turn.next, Next::Stop);
        assert_eq!(bob.phase, Phase::Closed);
        assert_eq!(listeners(&state, None), vec![2, 3]);
        assert!(state.is_online("bob"));
        assert!(!bob.accepts(&frame(vec![9], 0)));
    }
}

#[test]
fn the_last_device_takes_its_user_offline() {
    let mut state = AppState::new();
    let mut bob = ready(&mut state, 1, "bob");
    step(&mut bob, &mut state, Event::Frame { incoming: Incoming::End, now: 0, clock: 0 });
    assert!(!state.is_online("bob"));
    assert_eq!(listeners(&state, None), Vec::<u64>::new());
}

#[test]
fn a_decrypted_message_is_taken_as_it_is() {
    let mut state = AppState::new();
    state.sign_in(
        "t",
        "tok9",
        Peer { conn: 9, keys: keys(9), connected: true, username: Some(s("eve")) },
        "eve",
    );
    let mut bob = ready(&mut state, 1, "bob");
    let turn = take_post(&mut bob, &state, s("eve"), vec![1, 2], s("текст"), 3);
    assert_eq!(turn.next, Next::Ask(DbCall::UserExists { username: s("eve") }));
    db(&mut bob, &mut state, Ok(DbValue::Flag(true)));
    let turn = db(&mut bob, &mut state, Ok(DbValue::Unit));
    assert_eq!(
        turn.actions,
        vec![sent(1, "bob", "eve", &[1, 2], 3), sent(9, "bob", "eve", &[1, 2], 3)]
    );
}
