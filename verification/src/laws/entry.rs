//! What users get who sign up, log in or come back, from their first message to the end
//! of their history.

use crate::client;
use crate::crypto::IncomingView;
use crate::crypto::SessionKeys;
use crate::db;
use crate::db::{DbCall, DbValue, Room, StoredMessage};
use crate::signin;
use crate::state;
use crate::text;
use crate::turn;
use crate::turn::Next;
use vstd::prelude::*;
use vstd::utf8::*;

verus! {

/// What a client's first message brings.
pub open spec fn on_first(
    c: turn::ClientView,
    s: state::AppStateView,
    data: Seq<u8>,
    now: u64,
    clock: i64,
) -> turn::TurnView {
    let incoming = IncomingView::Binary(data);
    client::step_of(c, s, turn::EventView::Frame { incoming, now, clock })
}

/// What an answer of the database brings.
pub open spec fn on_answer(
    c: turn::ClientView,
    s: state::AppStateView,
    outcome: db::Outcome,
) -> turn::TurnView {
    client::step_of(c, s, turn::EventView::Db(outcome))
}

/// Whether the message is a first message with these parts: the byte 4, four more bytes,
/// and the parts in UTF-8 with bars between them.
pub open spec fn holds_parts(data: Seq<u8>, parts: Seq<Seq<char>>) -> bool {
    &&& data.len() >= 5
    &&& data[0] == 4
    &&& valid_utf8(data.skip(5))
    &&& parts == text::pieces(decode_utf8(data.skip(5)), '|')
}

/// Whether nothing is done but to ask the database this.
pub open spec fn only_asks(
    c: turn::ClientView,
    s: state::AppStateView,
    t: turn::TurnView,
    call: DbCall<Seq<char>>,
) -> bool {
    &&& t.actions == Seq::<turn::DeedView>::empty()
    &&& t.state == s
    &&& t.next == Next::Ask(call)
    &&& t.client == turn::ClientView { phase: t.client.phase, ..c }
}

/// Whether the client is told this and nothing more is done for it.
pub open spec fn turned_away(
    s: state::AppStateView,
    t: turn::TurnView,
    told: Seq<char>,
) -> bool {
    &&& t.actions == seq![turn::DeedView::System { text: told }]
    &&& t.state == s
    &&& t.next is Stop
}

/// Whether the user is connected from now on: the connection is known under the token as
/// one more of the user's, everybody else is told, and the user's messages are asked for.
pub open spec fn is_connected(
    c: turn::ClientView,
    s: state::AppStateView,
    t: turn::TurnView,
    user_id: Seq<char>,
    token: Seq<char>,
    name: Seq<char>,
) -> bool {
    let devices = if s.online.contains_key(name) {
        s.online[name]
    } else {
        Seq::empty()
    };
    let peer = state::PeerView {
        conn: c.conn,
        keys: c.session.keys,
        connected: c.session.connected,
        username: Some(name),
    };
    &&& t.actions.len() > 0
    &&& t.actions.last() == turn::DeedView::Broadcast {
        text: "[Система] Пользователь "@ + name + " подключился"@,
        exclude: name,
    }
    &&& t.state.sessions == s.sessions.remove(c.temp_id).insert(token, peer)
    &&& t.state.online == s.online.insert(name, devices.push(token))
    &&& t.client.name == name
    &&& t.client.conn == c.conn
    &&& t.client.session.keys == c.session.keys
    &&& t.client.session.user_id == Some(user_id)
    &&& t.client.session.username == Some(name)
    &&& t.client.session.token == Some(token)
    &&& name.len() > 0 ==> t.client.phase is PrivateHistory && t.next == Next::Ask(
        DbCall::GetUserMessages { username: name, limit: 100, offset: 0 },
    )
    &&& name.len() == 0 ==> t.client.phase is Ready && t.next is Read
}

/// Whether the user is let in: told the identifier, the token and the name, and connected,
/// once the push token of the device has been stored where there is one.
pub open spec fn is_let_in(
    c: turn::ClientView,
    s: state::AppStateView,
    t: turn::TurnView,
    user_id: Seq<char>,
    token: Seq<char>,
    name: Seq<char>,
    device_name: Seq<char>,
    push_token: Option<Seq<char>>,
) -> bool {
    let greeting = turn::DeedView::System {
        text: "Успех|"@ + user_id + "|"@ + token + "|"@ + name,
    };
    &&& t.actions.len() > 0
    &&& t.actions[0] == greeting
    &&& match push_token {
        Some(push_token) => {
            &&& t.actions.len() == 1
            &&& t.state == s
            &&& t.next == Next::Ask(
                DbCall::SaveFcmToken { user_id, token: push_token, device_name },
            )
            &&& forall|then: state::AppStateView, outcome: db::Outcome|
                {
                    let u = #[trigger] on_answer(t.client, then, outcome);
                    u.actions.len() == 1 && is_connected(c, then, u, user_id, token, name)
                }
        },
        None => t.actions.len() == 2 && is_connected(c, s, t, user_id, token, name),
    }
}

/// Whether a session is opened for the user, and the user let in with its token.
pub open spec fn gets_session(
    c: turn::ClientView,
    s: state::AppStateView,
    t: turn::TurnView,
    user_id: Seq<char>,
    name: Seq<char>,
    device_name: Seq<char>,
    push_token: Option<Seq<char>>,
) -> bool {
    &&& only_asks(c, s, t, DbCall::CreateSession { user_id, device_name })
    &&& forall|then: state::AppStateView, token: Seq<char>|
        is_let_in(
            c,
            then,
            #[trigger] on_answer(t.client, then, Ok(DbValue::Text(token))),
            user_id,
            token,
            name,
            device_name,
            push_token,
        )
    &&& forall|then: state::AppStateView, e: Seq<char>|
        turned_away(
            then,
            #[trigger] on_answer(t.client, then, Err(e)),
            "[Система] Ошибка создания сессии: "@ + e,
        )
}

/// The part at the index, without white space at its ends, where there is one.
pub open spec fn part_or_none(parts: Seq<Seq<char>>, index: int) -> Option<Seq<char>> {
    if index < parts.len() {
        Some(text::trimmed(parts[index]))
    } else {
        None
    }
}

/// A new user is registered under the sixth part of the first message, and under the phone
/// number where that part is missing or blank, with the phone number, the password and the
/// two names that the message states. The user is let in under the same name, from the
/// device that the seventh part names, with the push token that is the eighth.
pub proof fn law_register(
    c: turn::ClientView,
    s: state::AppStateView,
    data: Seq<u8>,
    parts: Seq<Seq<char>>,
    now: u64,
    clock: i64,
)
    requires
        c.phase is Auth,
        holds_parts(data, parts),
        parts.len() >= 3,
        parts[0] == "register"@,
    ensures
        ({
            let phone = text::trimmed(parts[1]);
            let name = if parts.len() >= 6 && !text::all_white(parts[5]) {
                text::trimmed(parts[5])
            } else {
                phone
            };
            let device_name = if parts.len() >= 7 {
                text::trimmed(parts[6])
            } else {
                "unknown"@
            };
            let t = on_first(c, s, data, now, clock);
            &&& only_asks(
                c,
                s,
                t,
                DbCall::RegisterUser {
                    username: name,
                    phone,
                    password: text::trimmed(parts[2]),
                    first_name: part_or_none(parts, 3),
                    last_name: part_or_none(parts, 4),
                },
            )
            &&& forall|then: state::AppStateView, user_id: Seq<char>|
                gets_session(
                    c,
                    then,
                    #[trigger] on_answer(t.client, then, Ok(DbValue::Text(user_id))),
                    user_id,
                    name,
                    device_name,
                    part_or_none(parts, 7),
                )
            &&& forall|then: state::AppStateView, e: Seq<char>|
                turned_away(
                    then,
                    #[trigger] on_answer(t.client, then, Err(e)),
                    "[Система] Ошибка: "@ + e,
                )
        }),
{
    lemma_first_words();
    if parts.len() >= 6 {
        text::law_trimmed(parts[5]);
    }
}

proof fn lemma_first_words()
    ensures
        "register"@ != "token"@,
        "register"@ != "login"@,
        "token"@ != "login"@,
{
    reveal_strlit("register");
    reveal_strlit("token");
    reveal_strlit("login");
    assert("register"@.len() == 8 && "token"@.len() == 5 && "login"@.len() == 5);
    assert("token"@[0] == 't' && "login"@[0] == 'l');
}

/// The device that a known user states, where more than `more` parts are there.
pub open spec fn stated_device(parts: Seq<Seq<char>>, index: int, more: int) -> Seq<char> {
    if parts.len() > more {
        text::trimmed(parts[index])
    } else {
        "unknown"@
    }
}

/// The push token that a known user states: the last of more than four parts.
pub open spec fn stated_push_token(parts: Seq<Seq<char>>) -> Option<Seq<char>> {
    if parts.len() > 4 {
        Some(text::trimmed(parts[parts.len() - 1]))
    } else {
        None
    }
}

/// A user logs in with the phone number and the password of the first message, and is let
/// in under the name that the database has, or under the phone number where it gives none.
pub proof fn law_log_in(
    c: turn::ClientView,
    s: state::AppStateView,
    data: Seq<u8>,
    parts: Seq<Seq<char>>,
    now: u64,
    clock: i64,
)
    requires
        c.phase is Auth,
        holds_parts(data, parts),
        parts.len() >= 3,
        parts[0] == "login"@,
    ensures
        ({
            let phone = text::trimmed(parts[1]);
            let device_name = stated_device(parts, 3, 4);
            let push_token = stated_push_token(parts);
            let t = on_first(c, s, data, now, clock);
            &&& only_asks(
                c,
                s,
                t,
                DbCall::LoginUserByPhone { phone, password: text::trimmed(parts[2]) },
            )
            &&& forall|then: state::AppStateView, user_id: Seq<char>|
                {
                    let u = #[trigger] on_answer(t.client, then, Ok(DbValue::Text(user_id)));
                    &&& only_asks(c, then, u, DbCall::UsernameById { user_id })
                    &&& forall|later: state::AppStateView, name: Seq<char>|
                        gets_session(
                            c,
                            later,
                            #[trigger] on_answer(u.client, later, Ok(DbValue::Text(name))),
                            user_id,
                            name,
                            device_name,
                            push_token,
                        )
                    &&& forall|later: state::AppStateView, e: Seq<char>|
                        gets_session(
                            c,
                            later,
                            #[trigger] on_answer(u.client, later, Err(e)),
                            user_id,
                            phone,
                            device_name,
                            push_token,
                        )
                }
            &&& forall|then: state::AppStateView, e: Seq<char>|
                turned_away(
                    then,
                    #[trigger] on_answer(t.client, then, Err(e)),
                    "[Система] Ошибка: "@ + e,
                )
        }),
{
    lemma_first_words();
}

/// A user comes back with the token of an earlier session, and is let in under that token
/// as the user whom the database has for it.
pub proof fn law_come_back(
    c: turn::ClientView,
    s: state::AppStateView,
    data: Seq<u8>,
    parts: Seq<Seq<char>>,
    now: u64,
    clock: i64,
)
    requires
        c.phase is Auth,
        holds_parts(data, parts),
        parts.len() >= 3,
        parts[0] == "token"@,
    ensures
        ({
            let token = text::trimmed(parts[1]);
            let t = on_first(c, s, data, now, clock);
            &&& only_asks(c, s, t, DbCall::CheckSession { token })
            &&& forall|then: state::AppStateView, user_id: Seq<char>, name: Seq<char>|
                is_let_in(
                    c,
                    then,
                    #[trigger] on_answer(
                        t.client,
                        then,
                        Ok(DbValue::Account { user_id, username: name }),
                    ),
                    user_id,
                    token,
                    name,
                    stated_device(parts, 2, 3),
                    stated_push_token(parts),
                )
            &&& forall|then: state::AppStateView, e: Seq<char>|
                turned_away(
                    then,
                    #[trigger] on_answer(t.client, then, Err(e)),
                    "[Система] Ошибка: "@ + e,
                )
        }),
{
    lemma_first_words();
}

/// A first message that asks for something else is answered so, and ends the connection.
pub proof fn law_unknown_first(
    c: turn::ClientView,
    s: state::AppStateView,
    data: Seq<u8>,
    parts: Seq<Seq<char>>,
    now: u64,
    clock: i64,
)
    requires
        c.phase is Auth,
        holds_parts(data, parts),
        parts.len() >= 3,
        parts[0] != "register"@,
        parts[0] != "login"@,
        parts[0] != "token"@,
    ensures
        turned_away(
            s,
            on_first(c, s, data, now, clock),
            "[Система] Ошибка: Неизвестная команда "@ + parts[0],
        ),
{
}

/// What is no first message, or has fewer than three parts, ends the connection without a
/// word: the end of the connection, an empty message, one of another type, and one that is
/// no UTF-8.
pub proof fn law_no_first_message(
    c: turn::ClientView,
    s: state::AppStateView,
    incoming: IncomingView,
    now: u64,
    clock: i64,
)
    requires
        c.phase is Auth,
        match incoming {
            IncomingView::Binary(data) => data.len() == 0 || data[0] != 4 || !valid_utf8(
                data.skip(5),
            ) || text::pieces(decode_utf8(data.skip(5)), '|').len() < 3,
            _ => true,
        },
    ensures
        ({
            let t = client::step_of(c, s, turn::EventView::Frame { incoming, now, clock });
            &&& t.actions == Seq::<turn::DeedView>::empty()
            &&& t.state == s
            &&& t.next is Stop
        }),
{
    reveal_with_fuel(text::pieces, 2);
}

/// Whether the stored messages go to the client, one for one and in their order: each from
/// its sender to its recipient, behind the mark of a room, with the bytes of its content
/// and at its time.
pub open spec fn are_replayed(
    c: turn::ClientView,
    t: turn::TurnView,
    mark: Seq<char>,
    messages: Seq<StoredMessage<Seq<char>>>,
) -> bool {
    &&& t.actions.len() == messages.len()
    &&& forall|i: int|
        0 <= i < messages.len() ==> #[trigger] t.actions[i] == turn::DeedView::Encrypted {
            conn: c.conn,
            keys: c.session.keys,
            sender: messages[i].sender,
            recipient: mark + messages[i].recipient,
            plaintext: encode_utf8(messages[i].content),
            timestamp: messages[i].timestamp,
        }
}

/// Whoever has signed in gets the private messages, then those of the groups and then
/// those of the channels, as they were stored. Where the database fails, those that it
/// should have given are left out and the rest still comes.
pub proof fn law_history_arrives(
    c: turn::ClientView,
    s: state::AppStateView,
    messages: Seq<StoredMessage<Seq<char>>>,
    e: Seq<char>,
)
    requires
        c.phase is PrivateHistory || c.phase is GroupHistory || c.phase is ChannelHistory,
    ensures
        ({
            let t = on_answer(c, s, Ok(DbValue::Messages(messages)));
            let u = on_answer(c, s, Err(e));
            &&& c.phase is PrivateHistory ==> are_replayed(c, t, Seq::empty(), messages)
            &&& c.phase is PrivateHistory ==> forall|i: int|
                0 <= i < messages.len() ==> (#[trigger] t.actions[i] matches
                    turn::DeedView::Encrypted { recipient, .. } && recipient
                    == messages[i].recipient)
            &&& c.phase is GroupHistory ==> are_replayed(c, t, "#"@, messages)
            &&& c.phase is ChannelHistory ==> are_replayed(c, t, "&"@, messages)
            &&& u.actions == Seq::<turn::DeedView>::empty()
            &&& t.state == s && u.state == s
            &&& t.next == u.next && t.client == u.client
            &&& t.client == turn::ClientView { phase: t.client.phase, ..c }
            &&& c.phase is PrivateHistory ==> t.client.phase is GroupHistory && t.next
                == Next::Ask(DbCall::RoomHistory { room: Room::Group, username: c.name })
            &&& c.phase is GroupHistory ==> t.client.phase is ChannelHistory && t.next
                == Next::Ask(DbCall::RoomHistory { room: Room::Channel, username: c.name })
            &&& c.phase is ChannelHistory ==> t.client.phase is Ready && t.next is Read
        }),
{
    let t = on_answer(c, s, Ok(DbValue::Messages(messages)));
    if c.phase is PrivateHistory {
        assert forall|i: int| 0 <= i < messages.len() implies (#[trigger] t.actions[i] matches
            turn::DeedView::Encrypted { recipient, .. } && recipient == messages[i].recipient) by {
            assert(Seq::<char>::empty() + messages[i].recipient =~= messages[i].recipient);
        }
    }
}

/// A new connection has no user, has counted no message, and is known to the server under
/// its temporary key.
pub proof fn law_new_connection(
    conn: u64,
    temp_id: Seq<char>,
    keys: SessionKeys,
    now: u64,
    s: state::AppStateView,
)
    ensures
        ({
            let c = client::new_client(conn, temp_id, keys, now);
            let t = s.connected(temp_id, signin::peer_of(c));
            &&& c.phase is Auth
            &&& c.conn == conn && c.temp_id == temp_id && c.session.keys == keys
            &&& c.session.connected
            &&& c.session.user_id is None && c.session.username is None && c.session.token is None
            &&& c.session.msg_count == 0 && c.session.last_msg_time == now
            &&& t.online == s.online
            &&& t.sessions == s.sessions.insert(
                temp_id,
                state::PeerView { conn, keys, connected: true, username: None },
            )
        }),
{
}

/// Whoever leaves is no longer known under the token, which everybody else is told.
pub proof fn law_leaving(
    c: turn::ClientView,
    s: state::AppStateView,
    incoming: IncomingView,
    now: u64,
    clock: i64,
    name: Seq<char>,
    token: Seq<char>,
)
    requires
        c.phase is Ready,
        incoming is Failed || incoming is End,
        c.session.username == Some(name),
        c.session.token == Some(token),
    ensures
        ({
            let t = client::step_of(c, s, turn::EventView::Frame { incoming, now, clock });
            &&& t.next is Stop
            &&& t.client.phase is Closed
            &&& t.actions == seq![
                turn::DeedView::Broadcast {
                    text: "[Система] Пользователь "@ + name + " отключился"@,
                    exclude: name,
                },
            ]
            &&& t.state == s.signed_out(name, token)
        }),
{
}

} // verus!
