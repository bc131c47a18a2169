//! Push notifications for devices that are not connected.

use crate::db::Room;
use crate::text;
use vstd::prelude::*;

verus! {

broadcast use {text::lemma_views_push, text::lemma_views_len, text::lemma_views_index};

/// How many characters of a message a notification shows.
pub const PREVIEW_CHARS: usize = 100;

#[verifier::external_type_specification]
#[verifier::external_body]
pub struct ExJsonValue(serde_json::Value);

/// One field of a JSON object.
pub struct JsonField {
    pub key: String,
    /// The text of the value, where it is a text.
    pub text: Option<String>,
    /// The value as it is written in JSON.
    pub json: String,
}

/// The value of a field: its text, where it is a text, and how it is written in JSON.
pub type FieldValue = (Option<Seq<char>>, Seq<char>);

/// The fields of a JSON object.
pub uninterp spec fn json_fields(value: serde_json::Value) -> Map<Seq<char>, FieldValue>;

/// Whether a JSON value is an object.
pub uninterp spec fn json_is_object(value: serde_json::Value) -> bool;

/// The fields as a map. Of two fields with the same key the last one counts.
pub open spec fn fields_of(fields: Seq<JsonField>) -> Map<Seq<char>, FieldValue>
    decreases fields.len(),
{
    if fields.len() == 0 {
        Map::empty()
    } else {
        let f = fields.last();
        fields_of(fields.drop_last()).insert(f.key@, (text::option_text(f.text), f.json@))
    }
}

/// The pairs as a map. Of two pairs with the same key the last one counts.
pub open spec fn pairs_of(pairs: Seq<(Seq<char>, Seq<char>)>) -> Map<Seq<char>, Seq<char>>
    decreases pairs.len(),
{
    if pairs.len() == 0 {
        Map::empty()
    } else {
        pairs_of(pairs.drop_last()).insert(pairs.last().0, pairs.last().1)
    }
}

/// `Value::as_object`, and each field that the map of an object gives out, with what
/// `Value::as_str` and the JSON text of `Value` say of it. The fields of a map are
/// given out once each; in which order is left open.
#[verifier::external_body]
fn object_fields(value: &serde_json::Value) -> (r: Option<Vec<JsonField>>)
    ensures
        r is Some <==> json_is_object(*value),
        r matches Some(fields) ==> fields_of(fields@) == json_fields(*value),
{
    value.as_object().map(|fields| fields.iter().map(|(key, value)| JsonField {
        key: key.clone(),
        text: value.as_str().map(|s| s.to_string()),
        json: value.to_string(),
    }).collect())
}

/// Whether no key stands twice among the pairs.
pub open spec fn distinct_keys(pairs: Seq<(Seq<char>, Seq<char>)>) -> bool {
    forall|i: int, j: int|
        0 <= i < j < pairs.len() ==> (#[trigger] pairs[i]).0 != (#[trigger] pairs[j]).0
}

/// A `Value::Object` whose map is collected from texts, each as a `Value::String`. Which
/// of two pairs with the same key the map keeps is left open.
#[verifier::external_body]
fn text_object(pairs: &Vec<(String, String)>) -> (r: serde_json::Value)
    ensures
        json_is_object(r),
        json_fields(r).dom() == pairs_of(text::views(pairs@)).dom(),
        forall|k: Seq<char>|
            distinct_keys(text::views(pairs@)) && #[trigger] json_fields(r).contains_key(k)
                ==> json_fields(r)[k].0 == Some(pairs_of(text::views(pairs@))[k]),
{
    serde_json::Value::Object(
        pairs.iter().map(|(k, v)| (k.clone(), serde_json::Value::String(v.clone()))).collect(),
    )
}

/// What a field is sent as: a text as it is, anything else as it is written in JSON.
pub open spec fn sent_as(value: FieldValue) -> Seq<char> {
    match value.0 {
        Some(s) => s,
        None => value.1,
    }
}

/// What the fields are sent as.
pub open spec fn all_sent_as(fields: Map<Seq<char>, FieldValue>) -> Map<Seq<char>, Seq<char>> {
    Map::new(|k: Seq<char>| fields.contains_key(k), |k: Seq<char>| sent_as(fields[k]))
}

/// What goes with a notification: the fields of an object, and nothing of any other
/// value.
pub open spec fn sent_with(value: serde_json::Value) -> Map<Seq<char>, Seq<char>> {
    if json_is_object(value) {
        all_sent_as(json_fields(value))
    } else {
        Map::empty()
    }
}

/// Turns the fields of an object into pairs of texts.
pub fn send_fields(fields: &Vec<JsonField>) -> (r: Vec<(String, String)>)
    ensures
        pairs_of(text::views(r@)) == all_sent_as(fields_of(fields@)),
{
    let mut r: Vec<(String, String)> = Vec::new();
    let mut i: usize = 0;
    assert(text::views(r@) =~= Seq::<(Seq<char>, Seq<char>)>::empty());
    assert(pairs_of(Seq::empty()) =~= all_sent_as(fields_of(fields@.take(0))));
    while i < fields.len()
        invariant
            i <= fields@.len(),
            pairs_of(text::views(r@)) == all_sent_as(fields_of(fields@.take(i as int))),
        decreases fields@.len() - i,
    {
        let value = match &fields[i].text {
            Some(s) => s.clone(),
            None => fields[i].json.clone(),
        };
        let key = fields[i].key.clone();
        proof {
            let before: Seq<(Seq<char>, Seq<char>)> = text::views(r@);
            let now = before.push((key@, value@));
            assert(now.drop_last() =~= before);
            assert(fields@.take(i + 1).drop_last() =~= fields@.take(i as int));
            assert(pairs_of(now) =~= all_sent_as(fields_of(fields@.take(i + 1))));
        }
        r.push((key, value));
        i = i + 1;
    }
    assert(fields@.take(fields@.len() as int) =~= fields@);
    r
}

/// Turns what goes with a notification into pairs of texts.
pub fn push_data(data: &Option<serde_json::Value>) -> (r: Option<Vec<(String, String)>>)
    ensures
        match data {
            Some(value) => r is Some && pairs_of(text::views(r->Some_0@)) == sent_with(*value),
            None => r is None,
        },
{
    match data {
        Some(value) => match object_fields(value) {
            Some(fields) => Some(send_fields(&fields)),
            None => {
                let r: Vec<(String, String)> = Vec::new();
                assert(text::views(r@) =~= Seq::<(Seq<char>, Seq<char>)>::empty());
                assert(pairs_of(text::views(r@)) =~= Map::empty());
                Some(r)
            },
        },
        None => None,
    }
}

/// What the push service is called with.
#[derive(Debug, PartialEq, Eq)]
pub struct PushCall {
    pub token: String,
    pub title: String,
    pub body: String,
    pub data: Option<Vec<(String, String)>>,
}

/// Makes ready what the push service is called with.
pub fn send_fcm_push(
    fcm_token: &str,
    title: &str,
    body: &str,
    data: &Option<serde_json::Value>,
) -> (r: PushCall)
    ensures
        r.token@ == fcm_token@,
        r.title@ == title@,
        r.body@ == body@,
        match data {
            Some(value) => r.data is Some && pairs_of(text::views(r.data->Some_0@)) == sent_with(
                *value,
            ),
            None => r.data is None,
        },
{
    PushCall {
        token: fcm_token.to_owned(),
        title: title.to_owned(),
        body: body.to_owned(),
        data: push_data(data),
    }
}

/// What came of a call of the push service.
#[derive(Debug, PartialEq, Eq)]
pub enum PushOutcome<S> {
    /// The service could not be loaded.
    NotLoaded(S),
    /// It has no function to call.
    NotFound(S),
    /// The call failed.
    NotCalled(S),
    /// It returned something that is no yes or no.
    NotRead(S),
    /// It returned yes or no.
    Returned(bool),
    /// The call never came to its end.
    Aborted(S),
}

impl View for PushOutcome<String> {
    type V = PushOutcome<Seq<char>>;

    open spec fn view(&self) -> PushOutcome<Seq<char>> {
        match self {
            PushOutcome::NotLoaded(e) => PushOutcome::NotLoaded(e@),
            PushOutcome::NotFound(e) => PushOutcome::NotFound(e@),
            PushOutcome::NotCalled(e) => PushOutcome::NotCalled(e@),
            PushOutcome::NotRead(e) => PushOutcome::NotRead(e@),
            PushOutcome::Returned(b) => PushOutcome::Returned(*b),
            PushOutcome::Aborted(e) => PushOutcome::Aborted(e@),
        }
    }
}

/// Whether a notification was sent, or why not.
pub open spec fn result_of(outcome: PushOutcome<Seq<char>>) -> Result<(), Seq<char>> {
    match outcome {
        PushOutcome::Returned(true) => Ok(()),
        PushOutcome::Returned(false) => Err("Ошибка FCM: "@ + "FCM отправка вернула False"@),
        PushOutcome::NotLoaded(e) => Err(
            "Ошибка FCM: "@ + "Не удалось импортировать fcm_helper: "@ + e,
        ),
        PushOutcome::NotFound(e) => Err("Ошибка FCM: "@ + "Не удалось найти send_fcm_push: "@ + e),
        PushOutcome::NotCalled(e) => Err("Ошибка FCM: "@ + "Ошибка вызова send_fcm_push: "@ + e),
        PushOutcome::NotRead(e) => Err("Ошибка FCM: "@ + "Ошибка извлечения результата: "@ + e),
        PushOutcome::Aborted(e) => Err("Ошибка выполнения Python-кода: "@ + e),
    }
}

/// Tells whether a notification was sent, or why not.
pub fn push_result(outcome: &PushOutcome<String>) -> (r: Result<(), String>)
    ensures
        match result_of(outcome@) {
            Ok(()) => r is Ok,
            Err(e) => r is Err && r->Err_0@ == e,
        },
{
    match outcome {
        PushOutcome::Returned(sent) => if *sent {
            Ok(())
        } else {
            Err(text::concat2("Ошибка FCM: ", "FCM отправка вернула False"))
        },
        PushOutcome::NotLoaded(e) => Err(
            text::concat3("Ошибка FCM: ", "Не удалось импортировать fcm_helper: ", e.as_str()),
        ),
        PushOutcome::NotFound(e) => Err(
            text::concat3("Ошибка FCM: ", "Не удалось найти send_fcm_push: ", e.as_str()),
        ),
        PushOutcome::NotCalled(e) => Err(
            text::concat3("Ошибка FCM: ", "Ошибка вызова send_fcm_push: ", e.as_str()),
        ),
        PushOutcome::NotRead(e) => Err(
            text::concat3("Ошибка FCM: ", "Ошибка извлечения результата: ", e.as_str()),
        ),
        PushOutcome::Aborted(e) => Err(
            text::concat2("Ошибка выполнения Python-кода: ", e.as_str()),
        ),
    }
}

/// A notification of a message.
#[derive(Debug, PartialEq, Eq)]
pub struct Notification {
    pub title: String,
    pub body: String,
    /// What goes with it, key by key.
    pub data: Vec<(String, String)>,
}

#[verifier::ext_equal]
pub struct NotificationView {
    pub title: Seq<char>,
    pub body: Seq<char>,
    pub data: Seq<(Seq<char>, Seq<char>)>,
}

impl View for Notification {
    type V = NotificationView;

    open spec fn view(&self) -> NotificationView {
        NotificationView {
            title: self.title@,
            body: self.body@,
            data: text::views(self.data@),
        }
    }
}

/// The start of a message, as far as a notification shows it.
pub open spec fn preview(content: Seq<char>) -> Seq<char> {
    text::at_most(content, PREVIEW_CHARS as nat)
}

/// The notification of a private message.
pub open spec fn private_note_of(sender: Seq<char>, content: Seq<char>) -> NotificationView {
    NotificationView {
        title: "Новое сообщение от "@ + sender,
        body: preview(content),
        data: seq![("sender"@, sender), ("type"@, "private"@)],
    }
}

/// The notification of a message to a room.
pub open spec fn room_note_of(
    room: Room,
    name: Seq<char>,
    sender: Seq<char>,
    content: Seq<char>,
) -> NotificationView {
    NotificationView {
        title: match room {
            Room::Group => "Новое сообщение в группе "@ + name,
            Room::Channel => "Новое сообщение в канале "@ + name,
        },
        body: sender + ": "@ + preview(content),
        data: match room {
            Room::Group => seq![("sender"@, sender), ("group"@, name), ("type"@, "group"@)],
            Room::Channel => seq![("sender"@, sender), ("channel"@, name), ("type"@, "channel"@)],
        },
    }
}

fn add_pair(data: &mut Vec<(String, String)>, key: &str, value: &str)
    ensures
        text::views(final(data)@) == text::views(old(data)@).push((key@, value@)),
{
    data.push((key.to_owned(), value.to_owned()));
}

/// Makes the notification of a private message.
pub fn private_note(sender: &str, content: &str) -> (r: Notification)
    ensures
        r@ == private_note_of(sender@, content@),
{
    let mut data: Vec<(String, String)> = Vec::new();
    assert(text::views(data@) =~= Seq::<(Seq<char>, Seq<char>)>::empty());
    add_pair(&mut data, "sender", sender);
    add_pair(&mut data, "type", "private");
    let r = Notification {
        title: text::concat2("Новое сообщение от ", sender),
        body: text::take_chars(content, PREVIEW_CHARS),
        data,
    };
    assert(r@ =~= private_note_of(sender@, content@));
    r
}

/// Makes the notification of a message to a room.
pub fn room_note(room: Room, name: &str, sender: &str, content: &str) -> (r: Notification)
    ensures
        r@ == room_note_of(room, name@, sender@, content@),
{
    let mut data: Vec<(String, String)> = Vec::new();
    assert(text::views(data@) =~= Seq::<(Seq<char>, Seq<char>)>::empty());
    add_pair(&mut data, "sender", sender);
    let title = match room {
        Room::Group => {
            add_pair(&mut data, "group", name);
            add_pair(&mut data, "type", "group");
            text::concat2("Новое сообщение в группе ", name)
        },
        Room::Channel => {
            add_pair(&mut data, "channel", name);
            add_pair(&mut data, "type", "channel");
            text::concat2("Новое сообщение в канале ", name)
        },
    };
    let start = text::take_chars(content, PREVIEW_CHARS);
    let r = Notification { title, body: text::concat3(sender, ": ", start.as_str()), data };
    assert(r@ =~= room_note_of(room, name@, sender@, content@));
    r
}

/// Makes ready what the push service is called with for a notification. What goes
/// with it arrives as it was given, where no key stands twice.
pub fn notify(fcm_token: &str, note: &Notification) -> (r: PushCall)
    ensures
        r.token@ == fcm_token@,
        r.title@ == note@.title,
        r.body@ == note@.body,
        r.data is Some,
        pairs_of(text::views(r.data->Some_0@)).dom() == pairs_of(note@.data).dom(),
        distinct_keys(note@.data) ==> pairs_of(text::views(r.data->Some_0@)) == pairs_of(
            note@.data,
        ),
{
    let payload = text_object(&note.data);
    assert(sent_with(payload).dom() =~= pairs_of(note@.data).dom());
    assert(distinct_keys(note@.data) ==> sent_with(payload) =~= pairs_of(note@.data));
    send_fcm_push(fcm_token, note.title.as_str(), note.body.as_str(), &Some(payload))
}

/// In what goes with a notification no key stands twice, so that all of it arrives.
pub proof fn law_note_keys(
    room: Room,
    name: Seq<char>,
    sender: Seq<char>,
    content: Seq<char>,
)
    ensures
        distinct_keys(private_note_of(sender, content).data),
        distinct_keys(room_note_of(room, name, sender, content).data),
{
    reveal_strlit("sender");
    reveal_strlit("type");
    reveal_strlit("group");
    reveal_strlit("channel");
    assert("sender"@.len() == 6 && "type"@.len() == 4 && "group"@.len() == 5 && "channel"@.len()
        == 7);
}

/// A notification shows the start of the message and no more characters of it than
/// fit.
pub proof fn law_preview(content: Seq<char>)
    ensures
        preview(content).len() <= PREVIEW_CHARS,
        preview(content).is_prefix_of(content),
        content.len() <= PREVIEW_CHARS ==> preview(content) == content,
{
}

/// The notification of a private message names the sender and shows the first hundred
/// characters of the message, white space too, or the whole message where it is no longer.
pub proof fn law_private_note(sender: Seq<char>, content: Seq<char>)
    ensures
        ({
            let note = private_note_of(sender, content);
            &&& note.title == "Новое сообщение от "@ + sender
            &&& content.len() <= 100 ==> note.body == content
            &&& content.len() > 100 ==> note.body.len() == 100 && note.body.is_prefix_of(content)
            &&& note.data == seq![("sender"@, sender), ("type"@, "private"@)]
        }),
{
}

/// The notification of a message to a room names the room, and shows the sender and the
/// first hundred characters of the message, or the whole message where it is no longer.
pub proof fn law_room_note(name: Seq<char>, sender: Seq<char>, content: Seq<char>)
    ensures
        ({
            let group = room_note_of(Room::Group, name, sender, content);
            let channel = room_note_of(Room::Channel, name, sender, content);
            let shown = sender + ": "@;
            &&& group.title == "Новое сообщение в группе "@ + name
            &&& channel.title == "Новое сообщение в канале "@ + name
            &&& group.body == channel.body
            &&& content.len() <= 100 ==> group.body == shown + content
            &&& content.len() > 100 ==> group.body == shown + content.take(100)
            &&& group.data == seq![("sender"@, sender), ("group"@, name), ("type"@, "group"@)]
            &&& channel.data == seq![
                ("sender"@, sender),
                ("channel"@, name),
                ("type"@, "channel"@),
            ]
        }),
{
}

/// A text goes with a notification as it is, and any other value as it is written in JSON,
/// each under its own key. What is no object sends nothing.
pub proof fn law_sent_with(value: serde_json::Value, key: Seq<char>)
    ensures
        !json_is_object(value) ==> sent_with(value) == Map::<Seq<char>, Seq<char>>::empty(),
        json_is_object(value) ==> sent_with(value).contains_key(key) == json_fields(
            value,
        ).contains_key(key),
        json_is_object(value) && json_fields(value).contains_key(key) ==> sent_with(value)[key] == (
        match json_fields(value)[key] {
            (Some(s), _) => s,
            (None, json) => json,
        }),
{
}

/// A list of pairs stands for a map in which the last pair of a key counts.
pub proof fn law_pairs(
    pairs: Seq<(Seq<char>, Seq<char>)>,
    key: Seq<char>,
    value: Seq<char>,
    other: Seq<char>,
)
    requires
        other != key,
    ensures
        pairs_of(Seq::empty()) == Map::<Seq<char>, Seq<char>>::empty(),
        pairs_of(pairs.push((key, value))).contains_key(key),
        pairs_of(pairs.push((key, value)))[key] == value,
        pairs_of(pairs.push((key, value))).contains_key(other) == pairs_of(pairs).contains_key(
            other,
        ),
        pairs_of(pairs.push((key, value)))[other] == pairs_of(pairs)[other],
{
    assert(pairs.push((key, value)).drop_last() =~= pairs);
}

/// A notification counts as sent exactly if the push service said yes. What else came of
/// it is reported in its own words.
pub proof fn law_push_result(outcome: PushOutcome<Seq<char>>, e: Seq<char>)
    ensures
        result_of(outcome) is Ok <==> outcome == PushOutcome::<Seq<char>>::Returned(true),
        result_of(PushOutcome::Returned(false)) == Err::<(), Seq<char>>(
            "Ошибка FCM: "@ + "FCM отправка вернула False"@,
        ),
        result_of(PushOutcome::NotLoaded(e)) == Err::<(), Seq<char>>(
            "Ошибка FCM: "@ + "Не удалось импортировать fcm_helper: "@ + e,
        ),
        result_of(PushOutcome::NotFound(e)) == Err::<(), Seq<char>>(
            "Ошибка FCM: "@ + "Не удалось найти send_fcm_push: "@ + e,
        ),
        result_of(PushOutcome::NotCalled(e)) == Err::<(), Seq<char>>(
            "Ошибка FCM: "@ + "Ошибка вызова send_fcm_push: "@ + e,
        ),
        result_of(PushOutcome::NotRead(e)) == Err::<(), Seq<char>>(
            "Ошибка FCM: "@ + "Ошибка извлечения результата: "@ + e,
        ),
        result_of(PushOutcome::Aborted(e)) == Err::<(), Seq<char>>(
            "Ошибка выполнения Python-кода: "@ + e,
        ),
{
}

} // verus!
