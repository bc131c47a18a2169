use relay_server::auth::{is_auth_frame_complete, parse_auth, AuthRequest};
use relay_server::command::{parse_command, Command, Typed};
use relay_server::db::{Answer, DbCall, DbValue, Profile, Room};
use relay_server::text::split_whitespace;

fn s(text: &str) -> String {
    text.to_string()
}

fn frame(text: &str) -> Vec<u8> {
    let mut data = vec![4, 9, 9, 9, 9];
    data.extend_from_slice(text.as_bytes());
    data
}

fn auth(text: &str) -> Option<AuthRequest<String>> {
    parse_auth(&frame(text))
}

fn typed(line: &str) -> Typed<String> {
    parse_command(&split_whitespace(line), "unknown")
}

fn run(line: &str) -> Command<String> {
    match typed(line) {
        Typed::Run(command) => command,
        Typed::Answer(answer) => panic!("{}", answer),
    }
}

fn answer(line: &str, outcome: Result<Answer, String>) -> String {
    run(line).answer(&outcome)
}

fn names(list: &[&str]) -> Result<Answer, String> {
    Ok(DbValue::Names(list.iter().map(|n| n.to_string()).collect()))
}

#[test]
fn sign_in_with_a_token() {
    let request = |device: &str, fcm: Option<&str>| {
        Some(AuthRequest::Token {
            token: s("tok"),
            device_name: s(device),
            fcm: fcm.map(|t| t.to_string()),
        })
    };
    assert_eq!(auth("token| tok |phone"), request("unknown", None));
    assert_eq!(auth("token|tok| my phone |x"), request("my phone", None));
    assert_eq!(auth("token|tok|d|x| push "), request("d", Some("push")));
}

#[test]
fn sign_in_with_a_password() {
    let request = |device: &str, fcm: Option<&str>| {
        Some(AuthRequest::Login {
            phone: s("+7"),
            password: s("p w"),
            device_name: s(device),
            fcm: fcm.map(|t| t.to_string()),
        })
    };
    assert_eq!(auth("login|+7| p w "), request("unknown", None));
    assert_eq!(auth("login|+7|p w|dev"), request("unknown", None));
    assert_eq!(auth("login|+7|p w|dev|push"), request("dev", Some("push")));
    assert_eq!(auth("login|+7|p w|dev|x|"), request("dev", Some("")));
}

#[test]
fn sign_up() {
    let request = |username: &str,
                   first: Option<&str>,
                   last: Option<&str>,
                   device: &str,
                   fcm: Option<&str>| {
        Some(AuthRequest::Register {
            username: s(username),
            phone: s("+7"),
            password: s("pw"),
            first_name: first.map(|t| t.to_string()),
            last_name: last.map(|t| t.to_string()),
            device_name: s(device),
            fcm: fcm.map(|t| t.to_string()),
        })
    };
    assert_eq!(auth("register|+7|pw"), request("+7", None, None, "unknown", None));
    assert_eq!(auth("register|+7|pw| A "), request("+7", Some("A"), None, "unknown", None));
    assert_eq!(
        auth("register|+7|pw|A|B"),
        request("+7", Some("A"), Some("B"), "unknown", None)
    );
    assert_eq!(
        auth("register|+7|pw|A|B|  "),
        request("+7", Some("A"), Some("B"), "unknown", None)
    );
    assert_eq!(
        auth("register|+7|pw|A|B|bob|dev"),
        request("bob", Some("A"), Some("B"), "dev", None)
    );
    assert_eq!(
        auth("register|+7|pw|A|B|bob|dev| push |more"),
        request("bob", Some("A"), Some("B"), "dev", Some("push"))
    );
    assert_eq!(
        auth("register|+7|pw|A|B|bob|dev|push"),
        request("bob", Some("A"), Some("B"), "dev", Some("push"))
    );
}

#[test]
fn anything_else_is_no_sign_in() {
    assert_eq!(auth("logout|a|b"), Some(AuthRequest::Unknown { command: s("logout") }));
    assert_eq!(auth(" token|a|b"), Some(AuthRequest::Unknown { command: s(" token") }));
    assert_eq!(auth("token|a"), None);
    assert_eq!(auth(""), None);
    assert_eq!(parse_auth(&[]), None);
    assert_eq!(parse_auth(&[1, 2]), None);
    assert_eq!(parse_auth(&[4, 0, 0, 0, 0, 0xff]), None);
}

#[test]
fn a_first_message_without_its_length_cannot_be_read() {
    assert!(!is_auth_frame_complete(&[4, 0, 0, 0]));
    assert!(is_auth_frame_complete(&[4, 0, 0, 0, 0]));
    assert!(is_auth_frame_complete(&[]));
    assert!(is_auth_frame_complete(&[3]));
}

#[test]
fn commands_that_take_a_name() {
    assert_eq!(
        run("/creategroup  кот  и пёс"),
        Command::CreateRoom { room: Room::Group, name: s("кот и пёс") }
    );
    assert_eq!(run("/joingroup a"), Command::JoinRoom { room: Room::Group, name: s("a") });
    assert_eq!(run("/leavegroup a"), Command::LeaveRoom { room: Room::Group, name: s("a") });
    assert_eq!(run("/groupmembers a b"), Command::GroupMembers { name: s("a b") });
    assert_eq!(run("/createchannel a"), Command::CreateRoom { room: Room::Channel, name: s("a") });
    assert_eq!(run("/subscribe a"), Command::JoinRoom { room: Room::Channel, name: s("a") });
    assert_eq!(run("/unsubscribe a"), Command::LeaveRoom { room: Room::Channel, name: s("a") });
    assert_eq!(run("/setdisplayname a b"), Command::SetDisplayName { display_name: s("a b") });
    assert_eq!(run("/setusername a b"), Command::SetUsername { new_username: s("a") });
    assert_eq!(
        run("/setname A B C"),
        Command::SetName { first_name: s("A"), last_name: s("B C") }
    );
    assert_eq!(run("/setname A"), Command::SetName { first_name: s("A"), last_name: s("") });
}

#[test]
fn commands_that_take_nothing() {
    assert_eq!(run("/listgroups"), Command::ListGroups);
    assert_eq!(run("/listgroups x"), Command::ListGroups);
    assert_eq!(run("/channels"), Command::Channels);
    assert_eq!(run("/listusers"), Command::ListUsers);
    assert_eq!(run("/profile"), Command::Profile);
}

#[test]
fn a_command_without_its_name_is_explained() {
    for (command, argument) in [
        ("/creategroup", "<название>"),
        ("/joingroup", "<название>"),
        ("/leavegroup", "<название>"),
        ("/groupmembers", "<название>"),
        ("/createchannel", "<название>"),
        ("/subscribe", "<название>"),
        ("/unsubscribe", "<название>"),
        ("/setname", "<имя> [фамилия]"),
        ("/setdisplayname", "<отображаемое имя>"),
        ("/setusername", "<новый_username>"),
    ] {
        assert_eq!(
            typed(command),
            Typed::Answer(format!("[Система] Использование: {} {}", command, argument))
        );
    }
}

#[test]
fn what_is_no_command_is_named() {
    assert_eq!(typed("/nope a"), Typed::Answer(s("[Система] Неизвестная команда: unknown")));
    assert_eq!(typed("/CREATEGROUP a"), Typed::Answer(s("[Система] Неизвестная команда: unknown")));
    let words = split_whitespace("/nope a b");
    assert_eq!(
        parse_command(&words, "/nope a b"),
        Typed::Answer(s("[Система] Неизвестная команда: /nope a b"))
    );
}

#[test]
fn a_command_acts_for_its_user() {
    assert_eq!(
        run("/creategroup a").call("bob"),
        DbCall::CreateRoom { room: Room::Group, name: s("a"), creator: s("bob") }
    );
    assert_eq!(
        run("/subscribe a").call("bob"),
        DbCall::JoinRoom { room: Room::Channel, name: s("a"), username: s("bob") }
    );
    assert_eq!(
        run("/leavegroup a").call("bob"),
        DbCall::LeaveRoom { room: Room::Group, name: s("a"), username: s("bob") }
    );
    assert_eq!(
        run("/groupmembers a").call("bob"),
        DbCall::GetMembers { room: Room::Group, name: s("a") }
    );
    assert_eq!(run("/listgroups").call("bob"), DbCall::ListGroups { username: s("bob") });
    assert_eq!(run("/channels").call("bob"), DbCall::ListChannels { username: s("bob") });
    assert_eq!(run("/listusers").call("bob"), DbCall::ListUsers);
    assert_eq!(run("/profile").call("bob"), DbCall::GetProfile { username: s("bob") });
    assert_eq!(
        run("/setname A B").call("bob"),
        DbCall::SetName { username: s("bob"), first: s("A"), last: s("B") }
    );
    assert_eq!(
        run("/setdisplayname A").call("bob"),
        DbCall::SetDisplayName { username: s("bob"), display_name: s("A") }
    );
    assert_eq!(
        run("/setusername rob").call("bob"),
        DbCall::SetUsername { old_username: s("bob"), new_username: s("rob") }
    );
}

#[test]
fn answers_to_commands_that_change_something() {
    let ok = || Ok(DbValue::Unit);
    assert_eq!(answer("/creategroup a b", ok()), "[Система] Группа a b создана");
    assert_eq!(answer("/createchannel a", ok()), "[Система] Канал a создан");
    assert_eq!(answer("/joingroup a", ok()), "[Система] Вы присоединились к группе a");
    assert_eq!(answer("/leavegroup a", ok()), "[Система] Вы покинули группу a");
    assert_eq!(answer("/subscribe a", ok()), "[Система] Вы подписались на канал a");
    assert_eq!(answer("/unsubscribe a", ok()), "[Система] Вы отписались от канала a");
    assert_eq!(answer("/setname A B", ok()), "[Система] Имя обновлено: A B");
    assert_eq!(answer("/setname A", ok()), "[Система] Имя обновлено: A ");
    assert_eq!(answer("/setdisplayname A", ok()), "[Система] Отображаемое имя обновлено: A");
    assert_eq!(answer("/setusername rob", ok()), "[Система] Username изменён на rob");
    assert_eq!(answer("/joingroup a", Err(s("x"))), "[Система] Ошибка: x");
}

#[test]
fn answers_to_commands_that_list_something() {
    assert_eq!(
        answer("/groupmembers g", names(&["a", "b"])),
        "[Система] Участники группы g: a, b"
    );
    assert_eq!(answer("/groupmembers g", names(&[])), "[Система] В группе g нет участников");
    assert_eq!(answer("/listgroups", names(&["a"])), "[Система] Ваши группы: a");
    assert_eq!(
        answer("/listgroups", names(&[])),
        "[Система] Вы не состоите ни в одной группе"
    );
    assert_eq!(answer("/channels", names(&["a|b", "c|d"])), "[Система] Ваши каналы: a|b, c|d");
    assert_eq!(answer("/channels", names(&[])), "[Система] Вы не подписаны ни на один канал");
    assert_eq!(answer("/listusers", names(&["a|A"])), "[Система] Пользователи: a|A");
    assert_eq!(
        answer("/listusers", names(&[])),
        "[Система] Нет зарегистрированных пользователей"
    );
    let profile = Profile {
        username: s("u"),
        phone: s("p"),
        first_name: s("f"),
        last_name: s("l"),
        display_name: s("d"),
    };
    assert_eq!(
        answer("/profile", Ok(DbValue::Profile(profile))),
        "[Система] Профиль: username=u, phone=p, name=f l, display_name=d"
    );
    assert_eq!(answer("/profile", Err(s("x"))), "[Система] Ошибка: x");
}
