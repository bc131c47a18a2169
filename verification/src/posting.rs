//! What users say: commands, private messages, and messages to groups and channels.

use crate::command;
use crate::command::{Command, Typed};
use crate::db;
use crate::db::{Answer, DbCall, DbValue, Room};
use crate::notice;
use crate::notice::{Notification, NotificationView};
use crate::signin;
use crate::state;
use crate::state::{AppState, Peer, PeerView};
use crate::text;
use crate::turn;
use crate::turn::{Action, Client, Deed, Phase, Post, Turn};
use vstd::prelude::*;

verus! {

broadcast use {text::lemma_views_push, text::lemma_views_len, text::lemma_views_index};

/// What a line that is typed as a command brings: an answer, or a question to the
/// database.
pub open spec fn typed_turn(
    c: turn::ClientView,
    s: state::AppStateView,
    typed: Typed<Seq<char>>,
) -> turn::TurnView {
    match typed {
        Typed::Answer(answer) => signin::reading(c, s, seq![signin::said(answer)]),
        Typed::Run(command) => signin::asking(
            c,
            s,
            Seq::empty(),
            Phase::Command { command },
            command::call_of(command, c.name),
        ),
    }
}

/// What a command line brings. `unknown` is how it is named where it is no command.
pub open spec fn line_turn(
    c: turn::ClientView,
    s: state::AppStateView,
    line: Seq<char>,
    unknown: Seq<char>,
) -> turn::TurnView {
    let words = text::words(line);
    if words.len() == 0 {
        signin::reading(c, s, Seq::empty())
    } else {
        typed_turn(c, s, command::typed_of(words, unknown))
    }
}

fn take_words(client: &mut Client, state: &AppState, words: &Vec<String>, unknown: &str) -> (r:
    Turn)
    requires
        words@.len() > 0,
    ensures
        turn::turned(final(client)@, state@, r) == typed_turn(
            old(client)@,
            state@,
            command::typed_of(text::views(words@), unknown@),
        ),
{
    match command::parse_command(words, unknown) {
        Typed::Answer(answer) => signin::read_on(client, state, signin::say(answer)),
        Typed::Run(command) => {
            let call = command.call(client.name.as_str());
            signin::ask(client, state, signin::nothing(), Phase::Command { command }, call)
        },
    }
}

/// What a message of the type for commands brings. Four bytes before its text are
/// skipped, and an unknown command is named in full.
pub open spec fn command_turn(
    c: turn::ClientView,
    s: state::AppStateView,
    rest: Seq<u8>,
) -> turn::TurnView {
    let line = text::utf8_or_empty(rest.skip(4));
    line_turn(c, s, line, line)
}

pub(crate) fn take_command(client: &mut Client, state: &AppState, rest: &Vec<u8>) -> (r: Turn)
    requires
        rest@.len() >= 4,
    ensures
        turn::turned(final(client)@, state@, r) == command_turn(old(client)@, state@, rest@),
{
    let bytes = crate::wire::copy_range(rest.as_slice(), 4, rest.len());
    assert(rest@.skip(4) =~= rest@.subrange(4, rest@.len() as int));
    let line = text::decode_or_empty(bytes);
    let words = text::split_whitespace(line.as_str());
    if words.len() == 0 {
        signin::read_on(client, state, signin::nothing())
    } else {
        take_words(client, state, &words, line.as_str())
    }
}

/// The user name that the command gives to the user, where it has done so.
pub open spec fn new_name(command: Command<Seq<char>>, outcome: db::Outcome) -> Option<
    Seq<char>,
> {
    match (command, outcome) {
        (Command::SetUsername { new_username }, Ok(_)) => Some(new_username),
        _ => None,
    }
}

/// The answer to a command. A new user name is known from then on; the user goes on
/// speaking under the name of the sign-in.
pub open spec fn answer_turn(
    c: turn::ClientView,
    s: state::AppStateView,
    command: Command<Seq<char>>,
    outcome: db::Outcome,
) -> turn::TurnView {
    let actions = seq![signin::said(command::answer_of(command, outcome))];
    match new_name(command, outcome) {
        Some(name) => {
            let k = turn::ClientView {
                session: crate::session::SessionView { username: Some(name), ..c.session },
                ..c
            };
            let t = match c.session.token {
                Some(token) => s.renamed(token, c.conn, name),
                None => s,
            };
            signin::reading(k, t, actions)
        },
        None => signin::reading(c, s, actions),
    }
}

pub(crate) fn take_answer(
    client: &mut Client,
    state: &mut AppState,
    command: Command<String>,
    outcome: Result<Answer, String>,
) -> (r: Turn)
    requires
        old(state).wf(),
        outcome matches Ok(value) ==> db::kind_of(value@) == db::call_kind(
            command::call_of(command@, Seq::empty()),
        ),
    ensures
        final(state).wf(),
        turn::turned(final(client)@, final(state)@, r) == answer_turn(
            old(client)@,
            old(state)@,
            command@,
            db::outcome_of(outcome),
        ),
{
    let actions = signin::say(command.answer(&outcome));
    if outcome.is_ok() {
        if let Command::SetUsername { new_username } = &command {
            client.session.username = Some(new_username.clone());
            match &client.session.token {
                Some(token) => {
                    state.rename(token.as_str(), client.conn, new_username.as_str());
                },
                None => {},
            }
        }
    }
    signin::read_on(client, state, actions)
}

/// What a message brings, once it is decrypted: a command where it starts with a
/// slash, and else a message to a user, a group or a channel.
pub open spec fn post_turn(
    c: turn::ClientView,
    s: state::AppStateView,
    recipient: Seq<char>,
    plaintext: Seq<u8>,
    content: Seq<char>,
    timestamp: i64,
) -> turn::TurnView {
    if text::begins_with(content, '/') {
        let words = text::words(content);
        line_turn(
            c,
            s,
            content,
            if words.len() == 0 {
                content
            } else {
                words[0]
            },
        )
    } else if text::begins_with(recipient, '#') {
        room_post_turn(
            c,
            s,
            Room::Group,
            Post {
                recipient: text::without_leading(recipient, '#'),
                content,
                plaintext,
                timestamp,
            },
        )
    } else if text::begins_with(recipient, '&') {
        room_post_turn(
            c,
            s,
            Room::Channel,
            Post {
                recipient: text::without_leading(recipient, '&'),
                content,
                plaintext,
                timestamp,
            },
        )
    } else {
        signin::asking(
            c,
            s,
            Seq::empty(),
            Phase::PrivateCheck { post: Post { recipient, content, plaintext, timestamp } },
            DbCall::UserExists { username: recipient },
        )
    }
}

/// A message to a room: is the user in it?
pub open spec fn room_post_turn(
    c: turn::ClientView,
    s: state::AppStateView,
    room: Room,
    post: Post<Seq<char>, Seq<u8>>,
) -> turn::TurnView {
    signin::asking(
        c,
        s,
        Seq::empty(),
        Phase::RoomCheck { room, post },
        DbCall::IsMember { room, name: post.recipient, username: c.name },
    )
}

fn take_room_post(
    client: &mut Client,
    state: &AppState,
    room: Room,
    post: Post<String, Vec<u8>>,
) -> (r: Turn)
    ensures
        turn::turned(final(client)@, state@, r) == room_post_turn(
            old(client)@,
            state@,
            room,
            post@,
        ),
{
    let call = DbCall::IsMember {
        room,
        name: post.recipient.clone(),
        username: client.name.clone(),
    };
    signin::ask(client, state, signin::nothing(), Phase::RoomCheck { room, post }, call)
}

/// Takes a message that has been decrypted: `plaintext` as bytes and `content` as
/// text.
pub fn take_post(
    client: &mut Client,
    state: &AppState,
    recipient: String,
    plaintext: Vec<u8>,
    content: String,
    timestamp: i64,
) -> (r: Turn)
    ensures
        turn::turned(final(client)@, state@, r) == post_turn(
            old(client)@,
            state@,
            recipient@,
            plaintext@,
            content@,
            timestamp,
        ),
{
    if text::starts_with(content.as_str(), '/') {
        let words = text::split_whitespace(content.as_str());
        if words.len() == 0 {
            signin::read_on(client, state, signin::nothing())
        } else {
            let unknown = words[0].clone();
            take_words(client, state, &words, unknown.as_str())
        }
    } else if text::starts_with(recipient.as_str(), '#') {
        let name = text::trim_start_matches(recipient.as_str(), '#');
        let post = Post { recipient: name, content, plaintext, timestamp };
        take_room_post(client, state, Room::Group, post)
    } else if text::starts_with(recipient.as_str(), '&') {
        let name = text::trim_start_matches(recipient.as_str(), '&');
        let post = Post { recipient: name, content, plaintext, timestamp };
        take_room_post(client, state, Room::Channel, post)
    } else {
        let call = DbCall::UserExists { username: recipient.clone() };
        let post = Post { recipient, content, plaintext, timestamp };
        signin::ask(client, state, signin::nothing(), Phase::PrivateCheck { post }, call)
    }
}

/// What the database says of a question, where no answer counts as no.
pub open spec fn yes(outcome: db::Outcome) -> bool {
    outcome matches Ok(DbValue::Flag(flag)) && flag
}

fn is_yes(outcome: &Result<Answer, String>) -> (r: bool)
    ensures
        r == yes(db::outcome_of(*outcome)),
{
    match outcome {
        Ok(DbValue::Flag(flag)) => *flag,
        _ => false,
    }
}

/// What the database lists, where no answer counts as nothing.
pub open spec fn names(outcome: db::Outcome) -> Seq<Seq<char>> {
    match outcome {
        Ok(DbValue::Names(names)) => names,
        _ => Seq::empty(),
    }
}

fn names_in(outcome: Result<Answer, String>) -> (r: Vec<String>)
    ensures
        text::views(r@) == names(db::outcome_of(outcome)),
{
    match outcome {
        Ok(DbValue::Names(names)) => names,
        _ => {
            let r: Vec<String> = Vec::new();
            assert(text::views(r@) =~= Seq::<Seq<char>>::empty());
            r
        },
    }
}

/// A private message is stored if there is a user to get it.
pub open spec fn private_check_turn(
    c: turn::ClientView,
    s: state::AppStateView,
    post: Post<Seq<char>, Seq<u8>>,
    outcome: db::Outcome,
) -> turn::TurnView {
    if yes(outcome) {
        signin::asking(
            c,
            s,
            Seq::empty(),
            Phase::PrivateStore { post },
            DbCall::StoreMessage {
                sender: c.name,
                recipient: post.recipient,
                content: post.content,
                timestamp: post.timestamp,
            },
        )
    } else {
        signin::reading(
            c,
            s,
            seq![
                signin::said("[Система] Пользователь "@ + post.recipient + " не найден"@),
            ],
        )
    }
}

pub(crate) fn take_private_check(
    client: &mut Client,
    state: &AppState,
    post: Post<String, Vec<u8>>,
    outcome: Result<Answer, String>,
) -> (r: Turn)
    ensures
        turn::turned(final(client)@, state@, r) == private_check_turn(
            old(client)@,
            state@,
            post@,
            db::outcome_of(outcome),
        ),
{
    if is_yes(&outcome) {
        let call = DbCall::StoreMessage {
            sender: client.name.clone(),
            recipient: post.recipient.clone(),
            content: post.content.clone(),
            timestamp: post.timestamp,
        };
        signin::ask(client, state, signin::nothing(), Phase::PrivateStore { post }, call)
    } else {
        let answer = text::concat3(
            "[Система] Пользователь ",
            post.recipient.as_str(),
            " не найден",
        );
        signin::read_on(client, state, signin::say(answer))
    }
}

/// A message as it goes to a connection.
pub open spec fn delivery(
    sender: Seq<char>,
    conn: u64,
    keys: crate::crypto::SessionKeys,
    recipient: Seq<char>,
    post: Post<Seq<char>, Seq<u8>>,
) -> turn::DeedView {
    Action::Encrypted {
        conn,
        keys,
        sender,
        recipient,
        plaintext: post.plaintext,
        timestamp: post.timestamp,
    }
}

/// A message as it goes back to its sender.
pub open spec fn echo(
    c: turn::ClientView,
    recipient: Seq<char>,
    post: Post<Seq<char>, Seq<u8>>,
) -> turn::DeedView {
    delivery(c.name, c.conn, c.session.keys, recipient, post)
}

/// A message as it goes to each of the connections.
pub open spec fn deliveries(
    sender: Seq<char>,
    peers: Seq<PeerView>,
    recipient: Seq<char>,
    post: Post<Seq<char>, Seq<u8>>,
) -> Seq<turn::DeedView> {
    Seq::new(
        peers.len(),
        |i: int| delivery(sender, peers[i].conn, peers[i].keys, recipient, post),
    )
}

fn copy_bytes(bytes: &Vec<u8>) -> (r: Vec<u8>)
    ensures
        r@ == bytes@,
{
    let r = crate::wire::copy_range(bytes.as_slice(), 0, bytes.len());
    assert(bytes@.subrange(0, bytes@.len() as int) =~= bytes@);
    r
}

fn deliver_to(
    sender: &str,
    conn: u64,
    keys: crate::crypto::SessionKeys,
    recipient: &str,
    post: &Post<String, Vec<u8>>,
) -> (r: Deed)
    ensures
        r@ == delivery(sender@, conn, keys, recipient@, post@),
{
    Action::Encrypted {
        conn,
        keys,
        sender: sender.to_owned(),
        recipient: recipient.to_owned(),
        plaintext: copy_bytes(&post.plaintext),
        timestamp: post.timestamp,
    }
}

fn deliver_all(
    actions: &mut Vec<Deed>,
    sender: &str,
    peers: &Vec<Peer>,
    recipient: &str,
    post: &Post<String, Vec<u8>>,
)
    ensures
        text::views(final(actions)@) == text::views(old(actions)@) + deliveries(
            sender@,
            text::views(peers@),
            recipient@,
            post@,
        ),
{
    let ghost before: Seq<turn::DeedView> = text::views(actions@);
    let ghost all: Seq<PeerView> = text::views(peers@);
    let ghost sent = deliveries(sender@, all, recipient@, post@);
    let mut i: usize = 0;
    assert(before + sent.take(0) =~= before);
    while i < peers.len()
        invariant
            i <= peers@.len(),
            all == text::views(peers@),
            sent == deliveries(sender@, all, recipient@, post@),
            text::views(actions@) == before + sent.take(i as int),
        decreases peers@.len() - i,
    {
        assert(peers@[i as int]@ == all[i as int]);
        let deed = deliver_to(sender, peers[i].conn, peers[i].keys, recipient, post);
        assert(deed@ == sent[i as int]);
        actions.push(deed);
        assert(before + sent.take(i + 1) =~= (before + sent.take(i as int)).push(
            sent[i as int],
        ));
        i = i + 1;
    }
    assert(sent.take(sent.len() as int) =~= sent);
}

/// A private message goes back to its sender and to each connection of the user who
/// gets it. That user's push tokens come next.
pub open spec fn private_store_turn(
    c: turn::ClientView,
    s: state::AppStateView,
    post: Post<Seq<char>, Seq<u8>>,
) -> turn::TurnView {
    signin::asking(
        c,
        s,
        seq![echo(c, post.recipient, post)] + deliveries(
            c.name,
            s.devices_of(post.recipient),
            post.recipient,
            post,
        ),
        Phase::PrivatePush { post },
        DbCall::GetFcmTokens { username: post.recipient },
    )
}

pub(crate) fn take_private_store(
    client: &mut Client,
    state: &AppState,
    post: Post<String, Vec<u8>>,
) -> (r: Turn)
    requires
        state.wf(),
    ensures
        turn::turned(final(client)@, state@, r) == private_store_turn(
            old(client)@,
            state@,
            post@,
        ),
{
    let mut actions = signin::nothing();
    actions.push(
        deliver_to(
            client.name.as_str(),
            client.conn,
            client.session.keys,
            post.recipient.as_str(),
            &post,
        ),
    );
    let peers = state.devices(post.recipient.as_str());
    deliver_all(
        &mut actions,
        client.name.as_str(),
        &peers,
        post.recipient.as_str(),
        &post,
    );
    let call = DbCall::GetFcmTokens { username: post.recipient.clone() };
    signin::ask(client, state, actions, Phase::PrivatePush { post }, call)
}

/// A notification for each of the push tokens.
pub open spec fn pushes(tokens: Seq<Seq<char>>, note: NotificationView) -> Seq<turn::DeedView> {
    Seq::new(tokens.len(), |i: int| Action::Push { token: tokens[i], note })
}

/// The notification of a message.
pub open spec fn note_of(
    sender: Seq<char>,
    room: Option<Room>,
    post: Post<Seq<char>, Seq<u8>>,
) -> NotificationView {
    match room {
        Some(room) => notice::room_note_of(room, post.recipient, sender, post.content),
        None => notice::private_note_of(sender, post.content),
    }
}

fn make_note(sender: &str, room: Option<Room>, post: &Post<String, Vec<u8>>) -> (r: Notification)
    ensures
        r@ == note_of(sender@, room, post@),
{
    match room {
        Some(room) => notice::room_note(
            room,
            post.recipient.as_str(),
            sender,
            post.content.as_str(),
        ),
        None => notice::private_note(sender, post.content.as_str()),
    }
}

fn push_all(
    tokens: Vec<String>,
    sender: &str,
    room: Option<Room>,
    post: &Post<String, Vec<u8>>,
) -> (r: Vec<Deed>)
    ensures
        text::views(r@) == pushes(text::views(tokens@), note_of(sender@, room, post@)),
{
    let ghost all: Seq<Seq<char>> = text::views(tokens@);
    let ghost note = note_of(sender@, room, post@);
    let mut r = signin::nothing();
    let mut i: usize = 0;
    assert(pushes(all, note).take(0) =~= Seq::empty());
    while i < tokens.len()
        invariant
            i <= tokens@.len(),
            all == text::views(tokens@),
            note == note_of(sender@, room, post@),
            text::views(r@) == pushes(all, note).take(i as int),
        decreases tokens@.len() - i,
    {
        assert(tokens@[i as int]@ == all[i as int]);
        r.push(
            Action::Push { token: tokens[i].clone(), note: make_note(sender, room, post) },
        );
        assert(pushes(all, note).take(i + 1) =~= pushes(all, note).take(i as int).push(
            pushes(all, note)[i as int],
        ));
        i = i + 1;
    }
    assert(pushes(all, note).take(all.len() as int) =~= pushes(all, note));
    r
}

/// Each device of the user who gets a private message is notified.
pub open spec fn private_push_turn(
    c: turn::ClientView,
    s: state::AppStateView,
    post: Post<Seq<char>, Seq<u8>>,
    outcome: db::Outcome,
) -> turn::TurnView {
    signin::reading(c, s, pushes(names(outcome), note_of(c.name, None, post)))
}

pub(crate) fn take_private_push(
    client: &mut Client,
    state: &AppState,
    post: Post<String, Vec<u8>>,
    outcome: Result<Answer, String>,
) -> (r: Turn)
    ensures
        turn::turned(final(client)@, state@, r) == private_push_turn(
            old(client)@,
            state@,
            post@,
            db::outcome_of(outcome),
        ),
{
    let actions = push_all(names_in(outcome), client.name.as_str(), None, &post);
    signin::read_on(client, state, actions)
}

/// A message to a room is stored.
pub open spec fn room_stored(
    c: turn::ClientView,
    s: state::AppStateView,
    room: Room,
    post: Post<Seq<char>, Seq<u8>>,
) -> turn::TurnView {
    signin::asking(
        c,
        s,
        Seq::empty(),
        Phase::RoomStore { room, post },
        DbCall::StoreRoomMessage {
            room,
            name: post.recipient,
            sender: c.name,
            content: post.content,
            timestamp: post.timestamp,
        },
    )
}

fn store_post(
    client: &mut Client,
    state: &AppState,
    room: Room,
    post: Post<String, Vec<u8>>,
) -> (r: Turn)
    ensures
        turn::turned(final(client)@, state@, r) == room_stored(
            old(client)@,
            state@,
            room,
            post@,
        ),
{
    let call = DbCall::StoreRoomMessage {
        room,
        name: post.recipient.clone(),
        sender: client.name.clone(),
        content: post.content.clone(),
        timestamp: post.timestamp,
    };
    signin::ask(client, state, signin::nothing(), Phase::RoomStore { room, post }, call)
}

/// What a user is told who is not in the room.
pub open spec fn not_in_room(room: Room) -> Seq<char> {
    match room {
        Room::Group => "[Система] Вы не состоите в этой группе"@,
        Room::Channel => "[Система] Вы не подписаны на этот канал"@,
    }
}

/// Only who is in a group may write to it. Of a channel the owner is asked for next.
pub open spec fn room_check_turn(
    c: turn::ClientView,
    s: state::AppStateView,
    room: Room,
    post: Post<Seq<char>, Seq<u8>>,
    outcome: db::Outcome,
) -> turn::TurnView {
    if !yes(outcome) {
        signin::reading(c, s, seq![signin::said(not_in_room(room))])
    } else {
        match room {
            Room::Group => room_stored(c, s, room, post),
            Room::Channel => signin::asking(
                c,
                s,
                Seq::empty(),
                Phase::ChannelOwner { post },
                DbCall::IsChannelOwner { name: post.recipient, username: c.name },
            ),
        }
    }
}

pub(crate) fn take_room_check(
    client: &mut Client,
    state: &AppState,
    room: Room,
    post: Post<String, Vec<u8>>,
    outcome: Result<Answer, String>,
) -> (r: Turn)
    ensures
        turn::turned(final(client)@, state@, r) == room_check_turn(
            old(client)@,
            state@,
            room,
            post@,
            db::outcome_of(outcome),
        ),
{
    if !is_yes(&outcome) {
        let answer = match room {
            Room::Group => "[Система] Вы не состоите в этой группе",
            Room::Channel => "[Система] Вы не подписаны на этот канал",
        };
        return signin::read_on(client, state, signin::say(answer.to_owned()));
    }
    match room {
        Room::Group => store_post(client, state, room, post),
        Room::Channel => {
            let call = DbCall::IsChannelOwner {
                name: post.recipient.clone(),
                username: client.name.clone(),
            };
            signin::ask(client, state, signin::nothing(), Phase::ChannelOwner { post }, call)
        },
    }
}

/// Only the owner of a channel may write to it.
pub open spec fn channel_owner_turn(
    c: turn::ClientView,
    s: state::AppStateView,
    post: Post<Seq<char>, Seq<u8>>,
    outcome: db::Outcome,
) -> turn::TurnView {
    if yes(outcome) {
        room_stored(c, s, Room::Channel, post)
    } else {
        signin::reading(
            c,
            s,
            seq![
                signin::said("[Система] Только владелец канала может отправлять сообщения"@),
            ],
        )
    }
}

pub(crate) fn take_channel_owner(
    client: &mut Client,
    state: &AppState,
    post: Post<String, Vec<u8>>,
    outcome: Result<Answer, String>,
) -> (r: Turn)
    ensures
        turn::turned(final(client)@, state@, r) == channel_owner_turn(
            old(client)@,
            state@,
            post@,
            db::outcome_of(outcome),
        ),
{
    if is_yes(&outcome) {
        store_post(client, state, Room::Channel, post)
    } else {
        let answer = "[Система] Только владелец канала может отправлять сообщения";
        signin::read_on(client, state, signin::say(answer.to_owned()))
    }
}

/// A message to a room has been stored. Who is in the room comes next.
pub open spec fn room_store_turn(
    c: turn::ClientView,
    s: state::AppStateView,
    room: Room,
    post: Post<Seq<char>, Seq<u8>>,
) -> turn::TurnView {
    signin::asking(
        c,
        s,
        Seq::empty(),
        Phase::RoomMembers { room, post },
        DbCall::GetMembers { room, name: post.recipient },
    )
}

pub(crate) fn take_room_store(
    client: &mut Client,
    state: &AppState,
    room: Room,
    post: Post<String, Vec<u8>>,
) -> (r: Turn)
    ensures
        turn::turned(final(client)@, state@, r) == room_store_turn(
            old(client)@,
            state@,
            room,
            post@,
        ),
{
    let call = DbCall::GetMembers { room, name: post.recipient.clone() };
    signin::ask(client, state, signin::nothing(), Phase::RoomMembers { room, post }, call)
}

/// How a room is written as a recipient.
pub open spec fn room_label(room: Room, name: Seq<char>) -> Seq<char> {
    match room {
        Room::Group => "#"@ + name,
        Room::Channel => "&"@ + name,
    }
}

fn label_room(room: Room, name: &str) -> (r: String)
    ensures
        r@ == room_label(room, name@),
{
    match room {
        Room::Group => text::concat2("#", name),
        Room::Channel => text::concat2("&", name),
    }
}

/// What goes to the users of a room who are connected, up to the first who is not.
/// That user, and who comes behind, is the second part. The sender is left out.
pub open spec fn round(
    sender: Seq<char>,
    s: state::AppStateView,
    room: Room,
    post: Post<Seq<char>, Seq<u8>>,
    rest: Seq<Seq<char>>,
) -> (Seq<turn::DeedView>, Option<(Seq<char>, Seq<Seq<char>>)>)
    decreases rest.len(),
{
    if rest.len() == 0 {
        (Seq::empty(), None)
    } else if rest[0] == sender {
        round(sender, s, room, post, rest.skip(1))
    } else if s.online.contains_key(rest[0]) {
        let (actions, left) = round(sender, s, room, post, rest.skip(1));
        (
            deliveries(
                sender,
                s.devices_of(rest[0]),
                room_label(room, post.recipient),
                post,
            ) + actions,
            left,
        )
    } else {
        (Seq::empty(), Some((rest[0], rest.skip(1))))
    }
}

/// A message goes round a room. Who is not connected is notified, so the push tokens
/// of the first such user come next.
pub open spec fn round_turn(
    c: turn::ClientView,
    s: state::AppStateView,
    before: Seq<turn::DeedView>,
    room: Room,
    post: Post<Seq<char>, Seq<u8>>,
    rest: Seq<Seq<char>>,
) -> turn::TurnView {
    let (actions, left) = round(c.name, s, room, post, rest);
    match left {
        None => signin::reading(c, s, before + actions),
        Some((member, rest)) => signin::asking(
            c,
            s,
            before + actions,
            Phase::RoomPush { room, post, rest },
            DbCall::GetFcmTokens { username: member },
        ),
    }
}

fn copy_from(names: &Vec<String>, from: usize) -> (r: Vec<String>)
    requires
        from <= names@.len(),
    ensures
        text::views(r@) == text::views(names@).skip(from as int),
{
    let ghost all: Seq<Seq<char>> = text::views(names@);
    let mut r: Vec<String> = Vec::new();
    let mut i: usize = from;
    assert(text::views(r@) =~= all.subrange(from as int, from as int));
    while i < names.len()
        invariant
            from <= i <= names@.len(),
            all == text::views(names@),
            text::views(r@) == all.subrange(from as int, i as int),
        decreases names@.len() - i,
    {
        assert(names@[i as int]@ == all[i as int]);
        r.push(names[i].clone());
        assert(all.subrange(from as int, i + 1) =~= all.subrange(from as int, i as int).push(
            all[i as int],
        ));
        i = i + 1;
    }
    assert(all.subrange(from as int, all.len() as int) =~= all.skip(from as int));
    r
}

fn go_round(
    client: &mut Client,
    state: &AppState,
    before: Vec<Deed>,
    room: Room,
    post: Post<String, Vec<u8>>,
    rest: Vec<String>,
) -> (r: Turn)
    requires
        state.wf(),
    ensures
        turn::turned(final(client)@, state@, r) == round_turn(
            old(client)@,
            state@,
            text::views(before@),
            room,
            post@,
            text::views(rest@),
        ),
{
    let ghost c = client@;
    let ghost all: Seq<Seq<char>> = text::views(rest@);
    let ghost start: Seq<turn::DeedView> = text::views(before@);
    let label = label_room(room, post.recipient.as_str());
    let mut actions = before;
    let mut i: usize = 0;
    assert(all.skip(0) =~= all);
    assert(start + round(c.name, state@, room, post@, all).0 =~= text::views(actions@) + round(
        c.name,
        state@,
        room,
        post@,
        all.skip(0),
    ).0);
    while i < rest.len()
        invariant
            i <= rest@.len(),
            state.wf(),
            client@ == c,
            c == old(client)@,
            start == text::views(before@),
            label@ == room_label(room, post@.recipient),
            all == text::views(rest@),
            start + round(c.name, state@, room, post@, all).0 == text::views(actions@) + round(
                c.name,
                state@,
                room,
                post@,
                all.skip(i as int),
            ).0,
            round(c.name, state@, room, post@, all).1 == round(
                c.name,
                state@,
                room,
                post@,
                all.skip(i as int),
            ).1,
        decreases rest@.len() - i,
    {
        let member = rest[i].as_str();
        proof {
            assert(member@ == all[i as int]);
            assert(all.skip(i as int)[0] == all[i as int]);
            assert(all.skip(i as int).skip(1) =~= all.skip(i + 1));
        }
        if !text::same_text(member, client.name.as_str()) {
            if state.is_online(member) {
                let peers = state.devices(member);
                let ghost so_far: Seq<turn::DeedView> = text::views(actions@);
                deliver_all(&mut actions, client.name.as_str(), &peers, label.as_str(), &post);
                proof {
                    let now = deliveries(
                        c.name,
                        state@.devices_of(member@),
                        label@,
                        post@,
                    );
                    let later = round(c.name, state@, room, post@, all.skip(i + 1)).0;
                    assert((so_far + now) + later =~= so_far + (now + later));
                }
            } else {
                let call = DbCall::GetFcmTokens { username: rest[i].clone() };
                let left = copy_from(&rest, i + 1);
                assert(text::views(actions@) + Seq::<turn::DeedView>::empty() =~= text::views(
                    actions@,
                ));
                return signin::ask(
                    client,
                    state,
                    actions,
                    Phase::RoomPush { room, post, rest: left },
                    call,
                );
            }
        }
        i = i + 1;
    }
    assert(text::views(actions@) + Seq::<turn::DeedView>::empty() =~= text::views(actions@));
    signin::read_on(client, state, actions)
}

/// A message to a room goes back to its sender and round the room.
pub open spec fn room_members_turn(
    c: turn::ClientView,
    s: state::AppStateView,
    room: Room,
    post: Post<Seq<char>, Seq<u8>>,
    outcome: db::Outcome,
) -> turn::TurnView {
    round_turn(
        c,
        s,
        seq![echo(c, room_label(room, post.recipient), post)],
        room,
        post,
        names(outcome),
    )
}

pub(crate) fn take_room_members(
    client: &mut Client,
    state: &AppState,
    room: Room,
    post: Post<String, Vec<u8>>,
    outcome: Result<Answer, String>,
) -> (r: Turn)
    requires
        state.wf(),
    ensures
        turn::turned(final(client)@, state@, r) == room_members_turn(
            old(client)@,
            state@,
            room,
            post@,
            db::outcome_of(outcome),
        ),
{
    let label = label_room(room, post.recipient.as_str());
    let mut actions = signin::nothing();
    actions.push(
        deliver_to(
            client.name.as_str(),
            client.conn,
            client.session.keys,
            label.as_str(),
            &post,
        ),
    );
    go_round(client, state, actions, room, post, names_in(outcome))
}

/// Each device of a user who is not connected is notified. The message then goes
/// further round the room.
pub open spec fn room_push_turn(
    c: turn::ClientView,
    s: state::AppStateView,
    room: Room,
    post: Post<Seq<char>, Seq<u8>>,
    rest: Seq<Seq<char>>,
    outcome: db::Outcome,
) -> turn::TurnView {
    round_turn(
        c,
        s,
        pushes(names(outcome), note_of(c.name, Some(room), post)),
        room,
        post,
        rest,
    )
}

pub(crate) fn take_room_push(
    client: &mut Client,
    state: &AppState,
    room: Room,
    post: Post<String, Vec<u8>>,
    rest: Vec<String>,
    outcome: Result<Answer, String>,
) -> (r: Turn)
    requires
        state.wf(),
    ensures
        turn::turned(final(client)@, state@, r) == room_push_turn(
            old(client)@,
            state@,
            room,
            post@,
            text::views(rest@),
            db::outcome_of(outcome),
        ),
{
    let actions = push_all(names_in(outcome), client.name.as_str(), Some(room), &post);
    go_round(client, state, actions, room, post, rest)
}

} // verus!
