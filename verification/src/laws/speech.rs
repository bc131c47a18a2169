//! What becomes of what users say: messages to users and to rooms, and commands.

use crate::client;
use crate::command;
use crate::command::Command;
use crate::crypto;
use crate::crypto::IncomingView;
use crate::db;
use crate::db::{DbCall, DbValue, Profile, Room};
use crate::laws;
use crate::laws::entry;
use crate::notice::NotificationView;
use crate::posting;
use crate::state;
use crate::text;
use crate::turn;
use crate::turn::{Next, Phase, Post};
use crate::wire;
use vstd::prelude::*;

verus! {

/// What a message of the client brings.
pub open spec fn on_message(
    c: turn::ClientView,
    s: state::AppStateView,
    data: Seq<u8>,
    now: u64,
    clock: i64,
) -> turn::TurnView {
    let incoming = IncomingView::Binary(data);
    client::step_of(c, s, turn::EventView::Frame { incoming, now, clock })
}

/// Whether the message is one of a user to the recipient, which the key of the client
/// opens. Its time is the one that it states, or else that of its arrival.
pub open spec fn is_message(
    c: turn::ClientView,
    data: Seq<u8>,
    clock: i64,
    recipient: Seq<char>,
    plaintext: Seq<u8>,
    timestamp: i64,
) -> bool {
    let parts = wire::user_frame_parts(data.skip(1));
    &&& data.len() > 0
    &&& data[0] == 1
    &&& parts.recipient == recipient
    &&& crypto::aes256gcm_opened(c.session.keys.key@, parts.nonce, parts.encrypted) == Some(
        plaintext,
    )
    &&& timestamp == match parts.timestamp {
        Some(t) => t as i64,
        None => clock,
    }
}

/// Whether the client may speak at this time: it has signed in, and has not sent ten
/// messages within the second.
pub open spec fn may_speak(c: turn::ClientView, now: u64) -> bool {
    &&& c.phase is Ready
    &&& c.session.msg_count < 10 || now - c.session.last_msg_time > 1_000_000_000
    &&& c.session.msg_count < usize::MAX
}

/// Whether it is the same client, but for what it waits for and for the count of messages.
pub open spec fn same_client(a: turn::ClientView, b: turn::ClientView) -> bool {
    &&& a.conn == b.conn
    &&& a.temp_id == b.temp_id
    &&& a.name == b.name
    &&& a.session.keys == b.session.keys
    &&& a.session.connected == b.session.connected
    &&& a.session.user_id == b.session.user_id
    &&& a.session.username == b.session.username
    &&& a.session.token == b.session.token
}

/// Whether the database is asked this, and nothing else is done.
pub open spec fn asks(
    c: turn::ClientView,
    s: state::AppStateView,
    t: turn::TurnView,
    call: DbCall<Seq<char>>,
) -> bool {
    &&& t.actions == Seq::<turn::DeedView>::empty()
    &&& t.state == s
    &&& t.next == Next::Ask(call)
    &&& same_client(t.client, c)
}

/// Whether the client is told this, and nothing else is done.
pub open spec fn tells(
    c: turn::ClientView,
    s: state::AppStateView,
    t: turn::TurnView,
    told: Seq<char>,
) -> bool {
    &&& t.actions == seq![turn::DeedView::System { text: told }]
    &&& t.state == s
    &&& t.next is Read
    &&& t.client.phase is Ready
    &&& same_client(t.client, c)
}

/// Whether nothing is done, and the next message is awaited.
pub open spec fn passes_over(
    c: turn::ClientView,
    s: state::AppStateView,
    t: turn::TurnView,
) -> bool {
    &&& t.actions == Seq::<turn::DeedView>::empty()
    &&& t.state == s
    &&& t.next is Read
    &&& t.client.phase is Ready
    &&& same_client(t.client, c)
}

/// Whether the database is asked to store the message to the room as it came: under the
/// sender's name, with the whole content, and at its time. Who is in the room is asked
/// next, whatever came of it.
pub open spec fn stores_in_room(
    c: turn::ClientView,
    s: state::AppStateView,
    t: turn::TurnView,
    room: Room,
    name: Seq<char>,
    content: Seq<char>,
    plaintext: Seq<u8>,
    timestamp: i64,
) -> bool {
    &&& asks(
        c,
        s,
        t,
        DbCall::StoreRoomMessage { room, name, sender: c.name, content, timestamp },
    )
    &&& forall|then: state::AppStateView, outcome: db::Outcome|
        {
            let u = #[trigger] entry::on_answer(t.client, then, outcome);
            &&& asks(c, then, u, DbCall::GetMembers { room, name })
            &&& u.client.phase == turn::PhaseView::RoomMembers {
                room,
                post: Post { recipient: name, content, plaintext, timestamp },
            }
        }
}

/// Whether the database has not said yes.
pub open spec fn is_no(outcome: db::Outcome) -> bool {
    outcome != Ok::<db::AnswerView, Seq<char>>(DbValue::Flag(true))
}

/// A message to a group, whose name stands behind the mark `#`, is stored in the group as
/// it came, whatever its length, once the database has said that the user is in the group.
/// Whoever is not in it is told so, and nothing is stored.
pub proof fn law_message_to_group(
    c: turn::ClientView,
    s: state::AppStateView,
    data: Seq<u8>,
    now: u64,
    clock: i64,
    recipient: Seq<char>,
    plaintext: Seq<u8>,
    timestamp: i64,
)
    requires
        may_speak(c, now),
        is_message(c, data, clock, recipient, plaintext, timestamp),
        recipient.len() > 0 && recipient[0] == '#',
        !text::begins_with(text::utf8_lossy(plaintext), '/'),
    ensures
        ({
            let name = text::without_leading(recipient, '#');
            let content = text::utf8_lossy(plaintext);
            let t = on_message(c, s, data, now, clock);
            &&& asks(c, s, t, DbCall::IsMember { room: Room::Group, name, username: c.name })
            &&& forall|then: state::AppStateView|
                stores_in_room(
                    c,
                    then,
                    #[trigger] entry::on_answer(t.client, then, Ok(DbValue::Flag(true))),
                    Room::Group,
                    name,
                    content,
                    plaintext,
                    timestamp,
                )
            &&& forall|then: state::AppStateView, outcome: db::Outcome|
                is_no(outcome) ==> tells(
                    c,
                    then,
                    #[trigger] entry::on_answer(t.client, then, outcome),
                    "[Система] Вы не состоите в этой группе"@,
                )
        }),
{
}

/// A message to a channel, whose name stands behind the mark `&`, is stored in the channel
/// as it came, whatever its length, once the database has said that the user is subscribed
/// to the channel and owns it. Whoever is not or does not is told so, and nothing is
/// stored.
pub proof fn law_message_to_channel(
    c: turn::ClientView,
    s: state::AppStateView,
    data: Seq<u8>,
    now: u64,
    clock: i64,
    recipient: Seq<char>,
    plaintext: Seq<u8>,
    timestamp: i64,
)
    requires
        may_speak(c, now),
        is_message(c, data, clock, recipient, plaintext, timestamp),
        recipient.len() > 0 && recipient[0] == '&',
        !text::begins_with(text::utf8_lossy(plaintext), '/'),
    ensures
        ({
            let name = text::without_leading(recipient, '&');
            let content = text::utf8_lossy(plaintext);
            let t = on_message(c, s, data, now, clock);
            &&& asks(c, s, t, DbCall::IsMember { room: Room::Channel, name, username: c.name })
            &&& forall|then: state::AppStateView|
                {
                    let u = #[trigger] entry::on_answer(t.client, then, Ok(DbValue::Flag(true)));
                    &&& asks(c, then, u, DbCall::IsChannelOwner { name, username: c.name })
                    &&& forall|later: state::AppStateView|
                        stores_in_room(
                            c,
                            later,
                            #[trigger] entry::on_answer(u.client, later, Ok(DbValue::Flag(true))),
                            Room::Channel,
                            name,
                            content,
                            plaintext,
                            timestamp,
                        )
                    &&& forall|later: state::AppStateView, outcome: db::Outcome|
                        is_no(outcome) ==> tells(
                            c,
                            later,
                            #[trigger] entry::on_answer(u.client, later, outcome),
                            "[Система] Только владелец канала может отправлять сообщения"@,
                        )
                }
            &&& forall|then: state::AppStateView, outcome: db::Outcome|
                is_no(outcome) ==> tells(
                    c,
                    then,
                    #[trigger] entry::on_answer(t.client, then, outcome),
                    "[Система] Вы не подписаны на этот канал"@,
                )
        }),
{
}

/// A message as it goes to a connection.
pub open spec fn sent_to(
    conn: u64,
    keys: crypto::SessionKeys,
    sender: Seq<char>,
    recipient: Seq<char>,
    plaintext: Seq<u8>,
    timestamp: i64,
) -> turn::DeedView {
    turn::DeedView::Encrypted { conn, keys, sender, recipient, plaintext, timestamp }
}

/// The first hundred characters, or all where there are no more.
pub open spec fn first_hundred(content: Seq<char>) -> Seq<char> {
    if content.len() > 100 {
        content.take(100)
    } else {
        content
    }
}

/// A private message, whatever its length, is stored as it came if there is a user to get
/// it, and goes back to the sender and to each connection of that user, whatever came of
/// the storing. Each push token of the user then gets a notification that shows the first
/// hundred characters of it. Where there is no such user the sender is told so.
pub proof fn law_message_to_user(
    c: turn::ClientView,
    s: state::AppStateView,
    data: Seq<u8>,
    now: u64,
    clock: i64,
    recipient: Seq<char>,
    plaintext: Seq<u8>,
    timestamp: i64,
)
    requires
        may_speak(c, now),
        is_message(c, data, clock, recipient, plaintext, timestamp),
        !text::begins_with(recipient, '#'),
        !text::begins_with(recipient, '&'),
        !text::begins_with(text::utf8_lossy(plaintext), '/'),
    ensures
        ({
            let content = text::utf8_lossy(plaintext);
            let t = on_message(c, s, data, now, clock);
            &&& asks(c, s, t, DbCall::UserExists { username: recipient })
            &&& forall|then: state::AppStateView, outcome: db::Outcome|
                is_no(outcome) ==> tells(
                    c,
                    then,
                    #[trigger] entry::on_answer(t.client, then, outcome),
                    "[Система] Пользователь "@ + recipient + " не найден"@,
                )
            &&& forall|then: state::AppStateView|
                {
                    let u = #[trigger] entry::on_answer(t.client, then, Ok(DbValue::Flag(true)));
                    &&& asks(
                        c,
                        then,
                        u,
                        DbCall::StoreMessage { sender: c.name, recipient, content, timestamp },
                    )
                    &&& forall|later: state::AppStateView, outcome: db::Outcome|
                        is_sent_to_user(
                            c,
                            later,
                            #[trigger] entry::on_answer(u.client, later, outcome),
                            recipient,
                            content,
                            plaintext,
                            timestamp,
                        )
                }
        }),
{
    let content = text::utf8_lossy(plaintext);
    let t = on_message(c, s, data, now, clock);
    assert forall|then: state::AppStateView|
        {
            let u = #[trigger] entry::on_answer(t.client, then, Ok(DbValue::Flag(true)));
            forall|later: state::AppStateView, outcome: db::Outcome|
                is_sent_to_user(
                    c,
                    later,
                    #[trigger] entry::on_answer(u.client, later, outcome),
                    recipient,
                    content,
                    plaintext,
                    timestamp,
                )
        } by {
        let u = entry::on_answer(t.client, then, Ok(DbValue::Flag(true)));
        assert forall|later: state::AppStateView, outcome: db::Outcome|
            is_sent_to_user(
                c,
                later,
                #[trigger] entry::on_answer(u.client, later, outcome),
                recipient,
                content,
                plaintext,
                timestamp,
            ) by {
            lemma_sent_to_user(u.client, c, later, outcome, recipient, content, plaintext, timestamp);
        }
    }
}

/// Whether the message goes back to the sender and to each connection of the recipient,
/// and then, as a notification, to each push token.
pub open spec fn is_sent_to_user(
    c: turn::ClientView,
    s: state::AppStateView,
    t: turn::TurnView,
    recipient: Seq<char>,
    content: Seq<char>,
    plaintext: Seq<u8>,
    timestamp: i64,
) -> bool {
    let peers = s.devices_of(recipient);
    let note = NotificationView {
        title: "Новое сообщение от "@ + c.name,
        body: first_hundred(content),
        data: seq![("sender"@, c.name), ("type"@, "private"@)],
    };
    &&& t.state == s
    &&& same_client(t.client, c)
    &&& t.next == Next::Ask(DbCall::GetFcmTokens { username: recipient })
    &&& t.actions.len() == 1 + peers.len()
    &&& t.actions[0] == sent_to(
        c.conn,
        c.session.keys,
        c.name,
        recipient,
        plaintext,
        timestamp,
    )
    &&& forall|i: int|
        0 <= i < peers.len() ==> #[trigger] t.actions[1 + i] == sent_to(
            peers[i].conn,
            peers[i].keys,
            c.name,
            recipient,
            plaintext,
            timestamp,
        )
    &&& forall|then: state::AppStateView, tokens: Seq<Seq<char>>|
        is_notified(
            c,
            then,
            #[trigger] entry::on_answer(t.client, then, Ok(DbValue::Names(tokens))),
            tokens,
            note,
        )
    &&& forall|then: state::AppStateView, e: Seq<char>|
        passes_over(c, then, #[trigger] entry::on_answer(t.client, then, Err(e)))
}

/// Whether each of the push tokens gets the notification, once and in their order, and
/// nothing else is done.
pub open spec fn is_notified(
    c: turn::ClientView,
    s: state::AppStateView,
    t: turn::TurnView,
    tokens: Seq<Seq<char>>,
    note: NotificationView,
) -> bool {
    &&& t.state == s
    &&& same_client(t.client, c)
    &&& t.next is Read
    &&& t.client.phase is Ready
    &&& t.actions.len() == tokens.len()
    &&& forall|i: int|
        0 <= i < tokens.len() ==> #[trigger] t.actions[i] == (turn::DeedView::Push {
            token: tokens[i],
            note,
        })
}

proof fn lemma_sent_to_user(
    k: turn::ClientView,
    c: turn::ClientView,
    s: state::AppStateView,
    outcome: db::Outcome,
    recipient: Seq<char>,
    content: Seq<char>,
    plaintext: Seq<u8>,
    timestamp: i64,
)
    requires
        same_client(k, c),
        k.phase == (turn::PhaseView::PrivateStore {
            post: Post { recipient, content, plaintext, timestamp },
        }),
    ensures
        is_sent_to_user(
            c,
            s,
            entry::on_answer(k, s, outcome),
            recipient,
            content,
            plaintext,
            timestamp,
        ),
{
    let t = entry::on_answer(k, s, outcome);
    let post = Post { recipient, content, plaintext, timestamp };
    let note = NotificationView {
        title: "Новое сообщение от "@ + c.name,
        body: first_hundred(content),
        data: seq![("sender"@, c.name), ("type"@, "private"@)],
    };
    assert(t.client.phase == turn::PhaseView::PrivatePush { post });
    assert(posting::note_of(c.name, None, post) == note);
    assert forall|then: state::AppStateView, e: Seq<char>|
        passes_over(c, then, #[trigger] entry::on_answer(t.client, then, Err(e))) by {
        let u = entry::on_answer(t.client, then, Err(e));
        assert(u.actions =~= Seq::<turn::DeedView>::empty());
    }
}

/// How a room is written as a recipient.
pub open spec fn marked(room: Room, name: Seq<char>) -> Seq<char> {
    match room {
        Room::Group => "#"@ + name,
        Room::Channel => "&"@ + name,
    }
}

/// The notification of a message to a room.
pub open spec fn room_notice(
    room: Room,
    name: Seq<char>,
    sender: Seq<char>,
    content: Seq<char>,
) -> NotificationView {
    let body = sender + ": "@ + first_hundred(content);
    match room {
        Room::Group => NotificationView {
            title: "Новое сообщение в группе "@ + name,
            body,
            data: seq![("sender"@, sender), ("group"@, name), ("type"@, "group"@)],
        },
        Room::Channel => NotificationView {
            title: "Новое сообщение в канале "@ + name,
            body,
            data: seq![("sender"@, sender), ("channel"@, name), ("type"@, "channel"@)],
        },
    }
}

/// The push tokens that the database lists. A failure counts as none.
pub open spec fn listed(outcome: db::Outcome) -> Seq<Seq<char>> {
    match outcome {
        Ok(DbValue::Names(names)) => names,
        _ => Seq::empty(),
    }
}

/// What one in a room gets of a message: the sender nothing more, whoever is connected the
/// message on each connection, and whoever is not a notification for each push token.
pub open spec fn due_to(
    sender: Seq<char>,
    s: state::AppStateView,
    room: Room,
    post: Post<Seq<char>, Seq<u8>>,
    member: Seq<char>,
    answer: spec_fn(Seq<char>) -> db::Outcome,
) -> Seq<turn::DeedView> {
    let peers = s.devices_of(member);
    let tokens = listed(answer(member));
    if member == sender {
        Seq::empty()
    } else if s.online.contains_key(member) {
        Seq::new(
            peers.len(),
            |i: int|
                sent_to(
                    peers[i].conn,
                    peers[i].keys,
                    sender,
                    marked(room, post.recipient),
                    post.plaintext,
                    post.timestamp,
                ),
        )
    } else {
        Seq::new(
            tokens.len(),
            |i: int|
                turn::DeedView::Push {
                    token: tokens[i],
                    note: room_notice(room, post.recipient, sender, post.content),
                },
        )
    }
}

/// What everybody in a room gets of a message, one after the other.
pub open spec fn due_to_all(
    sender: Seq<char>,
    s: state::AppStateView,
    room: Room,
    post: Post<Seq<char>, Seq<u8>>,
    members: Seq<Seq<char>>,
    answer: spec_fn(Seq<char>) -> db::Outcome,
) -> Seq<turn::DeedView>
    decreases members.len(),
{
    if members.len() == 0 {
        Seq::empty()
    } else {
        due_to(sender, s, room, post, members[0], answer) + due_to_all(
            sender,
            s,
            room,
            post,
            members.skip(1),
            answer,
        )
    }
}

proof fn lemma_round_is_due(
    c: turn::ClientView,
    s: state::AppStateView,
    before: Seq<turn::DeedView>,
    room: Room,
    post: Post<Seq<char>, Seq<u8>>,
    rest: Seq<Seq<char>>,
    answer: spec_fn(Seq<char>) -> db::Outcome,
)
    ensures
        laws::whole_round(posting::round_turn(c, s, before, room, post, rest), s, answer) == before
            + due_to_all(c.name, s, room, post, rest, answer),
    decreases rest.len(),
{
    let t = posting::round_turn(c, s, before, room, post, rest);
    let all = laws::whole_round(t, s, answer);
    let due = due_to_all(c.name, s, room, post, rest, answer);
    if rest.len() == 0 {
        assert(all =~= before + due);
    } else {
        let tail = rest.skip(1);
        let member = rest[0];
        let first = due_to(c.name, s, room, post, member, answer);
        if member == c.name || s.online.contains_key(member) {
            lemma_round_is_due(c, s, before + first, room, post, tail, answer);
            let (now, left) = posting::round(c.name, s, room, post, rest);
            let (later, left_later) = posting::round(c.name, s, room, post, tail);
            assert(now =~= first + later);
            assert(left == left_later);
            assert(before + now =~= (before + first) + later);
            assert(t == posting::round_turn(c, s, before + first, room, post, tail));
            assert((before + first) + due_to_all(c.name, s, room, post, tail, answer) =~= before
                + due);
        } else {
            let k = t.client;
            let note = posting::note_of(c.name, Some(room), post);
            let pushes = posting::pushes(posting::names(answer(member)), note);
            assert(note == room_notice(room, post.recipient, c.name, post.content));
            assert(pushes =~= first);
            lemma_round_is_due(k, s, pushes, room, post, tail, answer);
            assert(client::db_turn(k, s, answer(member)) == posting::round_turn(
                k,
                s,
                pushes,
                room,
                post,
                tail,
            ));
            assert(t.actions =~= before);
            assert(all =~= before + (first + due_to_all(c.name, s, room, post, tail, answer)));
        }
    }
}

/// A message that has been stored in a room goes back to the sender and then to everybody
/// in the room, one after the other: each gets what is due, once, and nobody else gets
/// anything.
pub proof fn law_message_goes_round(
    c: turn::ClientView,
    s: state::AppStateView,
    room: Room,
    post: Post<Seq<char>, Seq<u8>>,
    members: Seq<Seq<char>>,
    answer: spec_fn(Seq<char>) -> db::Outcome,
)
    requires
        c.phase == (turn::PhaseView::RoomMembers { room, post }),
    ensures
        laws::whole_round(
            entry::on_answer(c, s, Ok(DbValue::Names(members))),
            s,
            answer,
        ) == seq![
            sent_to(
                c.conn,
                c.session.keys,
                c.name,
                marked(room, post.recipient),
                post.plaintext,
                post.timestamp,
            ),
        ] + due_to_all(c.name, s, room, post, members, answer),
{
    let echo = seq![
        sent_to(
            c.conn,
            c.session.keys,
            c.name,
            marked(room, post.recipient),
            post.plaintext,
            post.timestamp,
        ),
    ];
    lemma_round_is_due(c, s, echo, room, post, members, answer);
}

/// What cannot be opened with the key of the client, what is of an unknown type and what
/// is empty brings nothing.
pub proof fn law_passed_over(
    c: turn::ClientView,
    s: state::AppStateView,
    data: Seq<u8>,
    now: u64,
    clock: i64,
)
    requires
        may_speak(c, now),
        data.len() == 0 || (data[0] != 1 && data[0] != 3) || (data[0] == 1
            && crypto::aes256gcm_opened(
            c.session.keys.key@,
            wire::user_frame_parts(data.skip(1)).nonce,
            wire::user_frame_parts(data.skip(1)).encrypted,
        ) is None),
    ensures
        passes_over(c, s, on_message(c, s, data, now, clock)),
{
}

/// Whether the client is shown how the command is written.
pub open spec fn shows_usage(
    c: turn::ClientView,
    s: state::AppStateView,
    t: turn::TurnView,
    command: Seq<char>,
    arguments: Seq<char>,
) -> bool {
    tells(c, s, t, "[Система] Использование: "@ + command + " "@ + arguments)
}

/// Whether the turn does what the words of a line ask for, as far as rooms are concerned:
/// the command says of which sort the room is, and everything behind it is the name.
pub open spec fn does_room_command(
    c: turn::ClientView,
    s: state::AppStateView,
    t: turn::TurnView,
    words: Seq<Seq<char>>,
) -> bool {
    let username = c.name;
    let name = text::joined(words.skip(1), " "@);
    let group = Room::Group;
    let channel = Room::Channel;
    &&& words.len() >= 2 ==> {
        &&& words[0] == "/creategroup"@ ==> asks(
            c,
            s,
            t,
            DbCall::CreateRoom { room: group, name, creator: username },
        )
        &&& words[0] == "/createchannel"@ ==> asks(
            c,
            s,
            t,
            DbCall::CreateRoom { room: channel, name, creator: username },
        )
        &&& words[0] == "/joingroup"@ ==> asks(
            c,
            s,
            t,
            DbCall::JoinRoom { room: group, name, username },
        )
        &&& words[0] == "/subscribe"@ ==> asks(
            c,
            s,
            t,
            DbCall::JoinRoom { room: channel, name, username },
        )
        &&& words[0] == "/leavegroup"@ ==> asks(
            c,
            s,
            t,
            DbCall::LeaveRoom { room: group, name, username },
        )
        &&& words[0] == "/unsubscribe"@ ==> asks(
            c,
            s,
            t,
            DbCall::LeaveRoom { room: channel, name, username },
        )
        &&& words[0] == "/groupmembers"@ ==> asks(
            c,
            s,
            t,
            DbCall::GetMembers { room: group, name },
        )
    }
    &&& words.len() == 1 ==> {
        &&& words[0] == "/creategroup"@ ==> shows_usage(c, s, t, words[0], "<название>"@)
        &&& words[0] == "/createchannel"@ ==> shows_usage(c, s, t, words[0], "<название>"@)
        &&& words[0] == "/joingroup"@ ==> shows_usage(c, s, t, words[0], "<название>"@)
        &&& words[0] == "/subscribe"@ ==> shows_usage(c, s, t, words[0], "<название>"@)
        &&& words[0] == "/leavegroup"@ ==> shows_usage(c, s, t, words[0], "<название>"@)
        &&& words[0] == "/unsubscribe"@ ==> shows_usage(c, s, t, words[0], "<название>"@)
        &&& words[0] == "/groupmembers"@ ==> shows_usage(c, s, t, words[0], "<название>"@)
    }
    &&& words[0] == "/listgroups"@ ==> asks(c, s, t, DbCall::ListGroups { username })
    &&& words[0] == "/channels"@ ==> asks(c, s, t, DbCall::ListChannels { username })
}

/// Whether the turn does what the words of a line ask for, as far as users are concerned.
pub open spec fn does_user_command(
    c: turn::ClientView,
    s: state::AppStateView,
    t: turn::TurnView,
    words: Seq<Seq<char>>,
) -> bool {
    let username = c.name;
    &&& words[0] == "/listusers"@ ==> asks(c, s, t, DbCall::ListUsers)
    &&& words[0] == "/profile"@ ==> asks(c, s, t, DbCall::GetProfile { username })
    &&& words.len() >= 2 ==> {
        &&& words[0] == "/setname"@ ==> asks(
            c,
            s,
            t,
            DbCall::SetName {
                username,
                first: words[1],
                last: text::joined(words.skip(2), " "@),
            },
        )
        &&& words[0] == "/setdisplayname"@ ==> asks(
            c,
            s,
            t,
            DbCall::SetDisplayName { username, display_name: text::joined(words.skip(1), " "@) },
        )
        &&& words[0] == "/setusername"@ ==> asks(
            c,
            s,
            t,
            DbCall::SetUsername { old_username: username, new_username: words[1] },
        )
    }
    &&& words.len() == 1 ==> {
        &&& words[0] == "/setname"@ ==> shows_usage(
            c,
            s,
            t,
            words[0], "<имя> [фамилия]"@,
        )
        &&& words[0] == "/setdisplayname"@ ==> shows_usage(
            c,
            s,
            t,
            words[0], "<отображаемое имя>"@,
        )
        &&& words[0] == "/setusername"@ ==> shows_usage(
            c,
            s,
            t,
            words[0], "<новый_username>"@,
        )
    }
}

/// Whether the word is a command.
pub open spec fn is_command(word: Seq<char>) -> bool {
    ||| word == "/creategroup"@
    ||| word == "/createchannel"@
    ||| word == "/joingroup"@
    ||| word == "/subscribe"@
    ||| word == "/leavegroup"@
    ||| word == "/unsubscribe"@
    ||| word == "/groupmembers"@
    ||| word == "/listgroups"@
    ||| word == "/channels"@
    ||| word == "/listusers"@
    ||| word == "/profile"@
    ||| word == "/setname"@
    ||| word == "/setdisplayname"@
    ||| word == "/setusername"@
}

/// Whether the turn does what a line asks for that the client has typed. `unknown` is how
/// the line is named where it is no command.
pub open spec fn does_line(
    c: turn::ClientView,
    s: state::AppStateView,
    t: turn::TurnView,
    line: Seq<char>,
    unknown: Seq<char>,
) -> bool {
    let words = text::words(line);
    if words.len() == 0 {
        passes_over(c, s, t)
    } else {
        &&& does_room_command(c, s, t, words)
        &&& does_user_command(c, s, t, words)
        &&& !is_command(words[0]) ==> tells(
            c,
            s,
            t,
            "[Система] Неизвестная команда: "@ + unknown,
        )
    }
}

proof fn lemma_commands_differ()
    ensures
        "/creategroup"@.len() == 12 && "/creategroup"@[1] == 'c',
        "/joingroup"@.len() == 10 && "/joingroup"@[1] == 'j',
        "/leavegroup"@.len() == 11 && "/leavegroup"@[2] == 'e',
        "/groupmembers"@.len() == 13,
        "/listgroups"@.len() == 11 && "/listgroups"@[2] == 'i',
        "/createchannel"@.len() == 14,
        "/subscribe"@.len() == 10 && "/subscribe"@[1] == 's',
        "/unsubscribe"@.len() == 12 && "/unsubscribe"@[1] == 'u',
        "/channels"@.len() == 9,
        "/listusers"@.len() == 10 && "/listusers"@[1] == 'l',
        "/profile"@.len() == 8 && "/profile"@[1] == 'p',
        "/setname"@.len() == 8 && "/setname"@[1] == 's',
        "/setdisplayname"@.len() == 15,
        "/setusername"@.len() == 12 && "/setusername"@[1] == 's',
{
    reveal_strlit("/creategroup");
    reveal_strlit("/joingroup");
    reveal_strlit("/leavegroup");
    reveal_strlit("/groupmembers");
    reveal_strlit("/listgroups");
    reveal_strlit("/createchannel");
    reveal_strlit("/subscribe");
    reveal_strlit("/unsubscribe");
    reveal_strlit("/channels");
    reveal_strlit("/listusers");
    reveal_strlit("/profile");
    reveal_strlit("/setname");
    reveal_strlit("/setdisplayname");
    reveal_strlit("/setusername");
}

proof fn lemma_room_command(
    c: turn::ClientView,
    k: turn::ClientView,
    s: state::AppStateView,
    words: Seq<Seq<char>>,
    unknown: Seq<char>,
)
    requires
        same_client(k, c),
        words.len() > 0,
    ensures
        does_room_command(
            c,
            s,
            posting::typed_turn(k, s, command::typed_of(words, unknown)),
            words,
        ),
{
    lemma_commands_differ();
}

proof fn lemma_user_command(
    c: turn::ClientView,
    k: turn::ClientView,
    s: state::AppStateView,
    words: Seq<Seq<char>>,
    unknown: Seq<char>,
)
    requires
        same_client(k, c),
        words.len() > 0,
    ensures
        does_user_command(
            c,
            s,
            posting::typed_turn(k, s, command::typed_of(words, unknown)),
            words,
        ),
{
    lemma_commands_differ();
}

proof fn lemma_line(
    c: turn::ClientView,
    k: turn::ClientView,
    s: state::AppStateView,
    line: Seq<char>,
    unknown: Seq<char>,
)
    requires
        same_client(k, c),
    ensures
        does_line(c, s, posting::line_turn(k, s, line, unknown), line, unknown),
{
    let words = text::words(line);
    if words.len() > 0 {
        lemma_room_command(c, k, s, words, unknown);
        lemma_user_command(c, k, s, words, unknown);
    }
}

/// A message of the type for commands does what its text asks for: what stands behind the
/// type byte and four more bytes, read as UTF-8.
pub proof fn law_command_message(
    c: turn::ClientView,
    s: state::AppStateView,
    data: Seq<u8>,
    now: u64,
    clock: i64,
)
    requires
        may_speak(c, now),
        data.len() >= 5,
        data[0] == 3,
    ensures
        ({
            let line = text::utf8_or_empty(data.skip(5));
            does_line(c, s, on_message(c, s, data, now, clock), line, line)
        }),
{
    let line = text::utf8_or_empty(data.skip(5));
    assert(data.skip(1).skip(4) =~= data.skip(5));
    lemma_line(c, client::counted(c, now), s, line, line);
}

/// A message to anybody that starts with a slash is a command, and goes to nobody.
pub proof fn law_slash_command(
    c: turn::ClientView,
    s: state::AppStateView,
    data: Seq<u8>,
    now: u64,
    clock: i64,
    recipient: Seq<char>,
    plaintext: Seq<u8>,
    timestamp: i64,
)
    requires
        may_speak(c, now),
        is_message(c, data, clock, recipient, plaintext, timestamp),
        text::begins_with(text::utf8_lossy(plaintext), '/'),
    ensures
        ({
            let line = text::utf8_lossy(plaintext);
            let words = text::words(line);
            does_line(
                c,
                s,
                on_message(c, s, data, now, clock),
                line,
                if words.len() == 0 {
                    line
                } else {
                    words[0]
                },
            )
        }),
{
    let line = text::utf8_lossy(plaintext);
    let words = text::words(line);
    let unknown = if words.len() == 0 {
        line
    } else {
        words[0]
    };
    lemma_line(c, client::counted(c, now), s, line, unknown);
}

/// Whether the client is answered with the list, or told that there is nothing in it.
pub open spec fn answers_list(
    c: turn::ClientView,
    s: state::AppStateView,
    command: Command<Seq<char>>,
    nothing: Seq<char>,
    before: Seq<char>,
) -> bool {
    let k = turn::ClientView { phase: Phase::Command { command }, ..c };
    forall|list: Seq<Seq<char>>|
        tells(
            c,
            s,
            #[trigger] entry::on_answer(k, s, Ok(DbValue::Names(list))),
            if list.len() == 0 {
                nothing
            } else {
                before + text::joined(list, ", "@)
            },
        )
}

/// Whether the client is answered with the text, once the command has been carried out.
pub open spec fn answers(
    c: turn::ClientView,
    s: state::AppStateView,
    command: Command<Seq<char>>,
    value: db::AnswerView,
    told: Seq<char>,
) -> bool {
    let k = turn::ClientView { phase: Phase::Command { command }, ..c };
    tells(c, s, entry::on_answer(k, s, Ok(value)), told)
}

/// A command about rooms is answered with what was done, under the name of the room.
pub proof fn law_room_answers(
    c: turn::ClientView,
    s: state::AppStateView,
    name: Seq<char>,
)
    ensures
        ({
            let group = Room::Group;
            let channel = Room::Channel;
            let unit = DbValue::Unit;
            &&& answers(
                c,
                s,
                Command::CreateRoom { room: group, name },
                unit,
                "[Система] Группа "@ + name + " создана"@,
            )
            &&& answers(
                c,
                s,
                Command::CreateRoom { room: channel, name },
                unit,
                "[Система] Канал "@ + name + " создан"@,
            )
            &&& answers(
                c,
                s,
                Command::JoinRoom { room: group, name },
                unit,
                "[Система] Вы присоединились к группе "@ + name,
            )
            &&& answers(
                c,
                s,
                Command::JoinRoom { room: channel, name },
                unit,
                "[Система] Вы подписались на канал "@ + name,
            )
            &&& answers(
                c,
                s,
                Command::LeaveRoom { room: group, name },
                unit,
                "[Система] Вы покинули группу "@ + name,
            )
            &&& answers(
                c,
                s,
                Command::LeaveRoom { room: channel, name },
                unit,
                "[Система] Вы отписались от канала "@ + name,
            )
            &&& answers_list(
                c,
                s,
                Command::GroupMembers { name },
                "[Система] В группе "@ + name + " нет участников"@,
                "[Система] Участники группы "@ + name + ": "@,
            )
            &&& answers_list(
                c,
                s,
                Command::ListGroups,
                "[Система] Вы не состоите ни в одной группе"@,
                "[Система] Ваши группы: "@,
            )
            &&& answers_list(
                c,
                s,
                Command::Channels,
                "[Система] Вы не подписаны ни на один канал"@,
                "[Система] Ваши каналы: "@,
            )
        }),
{
}

/// A command about users is answered with what was found or done.
pub proof fn law_user_answers(
    c: turn::ClientView,
    s: state::AppStateView,
    first_name: Seq<char>,
    last_name: Seq<char>,
    profile: Profile<Seq<char>>,
)
    ensures
        answers_list(
            c,
            s,
            Command::ListUsers,
            "[Система] Нет зарегистрированных пользователей"@,
            "[Система] Пользователи: "@,
        ),
        answers(
            c,
            s,
            Command::Profile,
            DbValue::Profile(profile),
            "[Система] Профиль: username="@ + profile.username + ", phone="@ + profile.phone
                + ", name="@ + profile.first_name + " "@ + profile.last_name + ", display_name="@
                + profile.display_name,
        ),
        answers(
            c,
            s,
            Command::SetName { first_name, last_name },
            DbValue::Unit,
            "[Система] Имя обновлено: "@ + first_name + " "@ + last_name,
        ),
        answers(
            c,
            s,
            Command::SetDisplayName { display_name: first_name },
            DbValue::Unit,
            "[Система] Отображаемое имя обновлено: "@ + first_name,
        ),
{
}

/// A command that has failed is answered with the reason, and changes nothing.
pub proof fn law_failed_command(
    c: turn::ClientView,
    s: state::AppStateView,
    e: Seq<char>,
)
    requires
        c.phase is Command,
    ensures
        tells(c, s, entry::on_answer(c, s, Err(e)), "[Система] Ошибка: "@ + e),
{
}

/// Whoever has taken another name is told so, and is known under it from then on. What the
/// user says goes on under the name of the sign-in.
pub proof fn law_new_name(
    c: turn::ClientView,
    s: state::AppStateView,
    new_username: Seq<char>,
    token: Seq<char>,
)
    requires
        c.phase == (turn::PhaseView::Command { command: Command::SetUsername { new_username } }),
        c.session.token == Some(token),
    ensures
        ({
            let t = entry::on_answer(c, s, Ok(DbValue::Unit));
            &&& t.actions == seq![
                turn::DeedView::System { text: "[Система] Username изменён на "@ + new_username },
            ]
            &&& t.next is Read
            &&& t.client.phase is Ready
            &&& t.client.name == c.name
            &&& t.client.session == crate::session::SessionView {
                username: Some(new_username),
                ..c.session
            }
            &&& t.state == s.renamed(token, c.conn, new_username)
        }),
{
}

/// Each message counts, whatever it holds, unless it is empty; what is no binary message does
/// not. Nothing else that happens changes the count.
pub proof fn law_messages_count(
    c: turn::ClientView,
    s: state::AppStateView,
    data: Seq<u8>,
    now: u64,
    clock: i64,
    outcome: db::Outcome,
)
    requires
        c.phase is Ready || turn::takes(c, turn::EventView::Db(outcome)),
    ensures
        c.phase is Ready && data.len() > 0 ==> on_message(c, s, data, now, clock).client.session
            == c.session.counted(now),
        c.phase is Ready && data.len() == 0 ==> on_message(c, s, data, now, clock).client == c,
        c.phase is Ready ==> client::step_of(
            c,
            s,
            turn::EventView::Frame { incoming: IncomingView::Other, now, clock },
        ) == (turn::TurnView {
            client: c,
            state: s,
            actions: Seq::empty(),
            next: Next::Read,
        }),
        !(c.phase is Ready) ==> ({
            let t = entry::on_answer(c, s, outcome);
            &&& t.client.conn == c.conn
            &&& t.client.temp_id == c.temp_id
            &&& t.client.session.keys == c.session.keys
            &&& t.client.session.connected == c.session.connected
            &&& t.client.session.msg_count == c.session.msg_count
            &&& t.client.session.last_msg_time == c.session.last_msg_time
        }),
{
}

/// While a message goes round a room nothing changes but what the client waits for: the push
/// tokens of one more of the room, or, in the end, the client's next message.
pub proof fn law_round_ends(
    c: turn::ClientView,
    s: state::AppStateView,
    outcome: db::Outcome,
)
    requires
        c.phase is RoomMembers || c.phase is RoomPush,
    ensures
        ({
            let t = entry::on_answer(c, s, outcome);
            &&& t.state == s
            &&& same_client(t.client, c)
            &&& match t.next {
                Next::Read => t.client.phase is Ready,
                Next::Ask(call) => t.client.phase is RoomPush && call is GetFcmTokens,
                Next::Stop => false,
            }
        }),
{
}

} // verus!
