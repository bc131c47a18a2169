use relay_server::db::Room;
use relay_server::notice::{
    notify, private_note, push_data, push_result, room_note, send_fcm_push, send_fields,
    JsonField, PushOutcome,
};
use serde_json::Value;

fn s(text: &str) -> String {
    text.to_string()
}

fn pairs(list: &[(&str, &str)]) -> Vec<(String, String)> {
    list.iter().map(|(k, v)| (k.to_string(), v.to_string())).collect()
}

fn sorted(mut list: Vec<(String, String)>) -> Vec<(String, String)> {
    list.sort();
    list
}

#[test]
fn a_text_is_sent_as_it_is_and_anything_else_as_json() {
    let value: Value =
        serde_json::from_str(r#"{"a":"x\"y","b":1,"c":[true,null],"d":{"e":"f"},"g":""}"#).unwrap();
    assert_eq!(
        sorted(push_data(&Some(value)).unwrap()),
        pairs(&[
            ("a", "x\"y"),
            ("b", "1"),
            ("c", "[true,null]"),
            ("d", "{\"e\":\"f\"}"),
            ("g", ""),
        ])
    );
}

#[test]
fn only_an_object_has_fields() {
    assert_eq!(push_data(&Some(Value::String(s("x")))), Some(vec![]));
    assert_eq!(push_data(&Some(Value::Null)), Some(vec![]));
    assert_eq!(push_data(&None), None);
}

#[test]
fn a_call_holds_what_it_was_given() {
    let call = send_fcm_push("tok", "t", "b", &None);
    assert_eq!((call.token, call.title, call.body, call.data), (s("tok"), s("t"), s("b"), None));
}

#[test]
fn the_notification_of_a_private_message() {
    let note = private_note("bob", "привет");
    assert_eq!(note.title, "Новое сообщение от bob");
    assert_eq!(note.body, "привет");
    assert_eq!(note.data, pairs(&[("sender", "bob"), ("type", "private")]));
}

#[test]
fn the_notification_of_a_message_to_a_room() {
    let note = room_note(Room::Group, "g", "bob", "hi");
    assert_eq!(note.title, "Новое сообщение в группе g");
    assert_eq!(note.body, "bob: hi");
    assert_eq!(note.data, pairs(&[("sender", "bob"), ("group", "g"), ("type", "group")]));
    let note = room_note(Room::Channel, "c", "bob", "hi");
    assert_eq!(note.title, "Новое сообщение в канале c");
    assert_eq!(note.body, "bob: hi");
    assert_eq!(note.data, pairs(&[("sender", "bob"), ("channel", "c"), ("type", "channel")]));
}

#[test]
fn a_notification_shows_a_hundred_characters() {
    let long = "я".repeat(150);
    assert_eq!(private_note("bob", &long).body, "я".repeat(100));
    assert_eq!(room_note(Room::Group, "g", "bob", &long).body, format!("bob: {}", "я".repeat(100)));
    assert_eq!(private_note("bob", &"я".repeat(100)).body, "я".repeat(100));
}

#[test]
fn what_goes_with_a_notification_arrives() {
    let note = room_note(Room::Group, "кот \"и\" пёс", "bob", "hi");
    let call = notify("tok", &note);
    assert_eq!(call.token, "tok");
    assert_eq!(call.title, note.title);
    assert_eq!(call.body, note.body);
    assert_eq!(sorted(call.data.unwrap()), sorted(note.data));
}

#[test]
fn no_key_stands_twice_with_a_notification() {
    let notes = [
        private_note("bob", "hi"),
        room_note(Room::Group, "g", "bob", "hi"),
        room_note(Room::Channel, "c", "bob", "hi"),
    ];
    for note in notes {
        let mut keys: Vec<String> = note.data.iter().map(|(key, _)| key.clone()).collect();
        let all = keys.len();
        keys.sort();
        keys.dedup();
        assert_eq!(keys.len(), all);
    }
}

#[test]
fn what_came_of_a_notification() {
    assert_eq!(push_result(&PushOutcome::Returned(true)), Ok(()));
    let error = |outcome: PushOutcome<String>| push_result(&outcome).unwrap_err();
    assert_eq!(error(PushOutcome::Returned(false)), "Ошибка FCM: FCM отправка вернула False");
    assert_eq!(
        error(PushOutcome::NotLoaded(s("x"))),
        "Ошибка FCM: Не удалось импортировать fcm_helper: x"
    );
    assert_eq!(
        error(PushOutcome::NotFound(s("x"))),
        "Ошибка FCM: Не удалось найти send_fcm_push: x"
    );
    assert_eq!(
        error(PushOutcome::NotCalled(s("x"))),
        "Ошибка FCM: Ошибка вызова send_fcm_push: x"
    );
    assert_eq!(
        error(PushOutcome::NotRead(s("x"))),
        "Ошибка FCM: Ошибка извлечения результата: x"
    );
    assert_eq!(error(PushOutcome::Aborted(s("x"))), "Ошибка выполнения Python-кода: x");
}

#[test]
fn fields_are_sent_one_by_one() {
    let field = |key: &str, text: Option<&str>, json: &str| JsonField {
        key: s(key),
        text: text.map(|t| t.to_string()),
        json: s(json),
    };
    let fields = vec![field("a", Some("x"), "\"x\""), field("b", None, "[1]")];
    assert_eq!(send_fields(&fields), pairs(&[("a", "x"), ("b", "[1]")]));
    assert_eq!(send_fields(&vec![]), vec![]);
}
