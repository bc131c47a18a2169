//! What a client goes through: what it waits for, what can happen and what is done
//! about it.

use crate::auth;
use crate::command;
use crate::command::Command;
use crate::crypto::{Incoming, IncomingView, SessionKeys};
use crate::db;
use crate::db::{Answer, DbCall, Kind, Room};
use crate::notice::{Notification, NotificationView};
use crate::session::{Session, SessionView};
use crate::state;
use crate::text;
use crate::wire;
use vstd::prelude::*;

verus! {

broadcast use {text::lemma_views_push, text::lemma_views_len, text::lemma_views_index};

/// A message that a user sends. `recipient` is a user, or the name of a room.
#[derive(Debug, PartialEq, Eq)]
pub struct Post<S, B> {
    pub recipient: S,
    pub content: S,
    /// The message as it was decrypted.
    pub plaintext: B,
    pub timestamp: i64,
}

impl View for Post<String, Vec<u8>> {
    type V = Post<Seq<char>, Seq<u8>>;

    open spec fn view(&self) -> Post<Seq<char>, Seq<u8>> {
        Post {
            recipient: self.recipient@,
            content: self.content@,
            plaintext: self.plaintext@,
            timestamp: self.timestamp,
        }
    }
}

/// What a client waits for, and what it needs to go on.
#[derive(Debug, PartialEq, Eq)]
pub enum Phase<S, L, B> {
    /// The first message, by which the user signs in.
    Auth,
    /// The account that a token belongs to.
    Token { token: S, device_name: S, fcm: Option<S> },
    /// The account that a phone number and a password belong to.
    Login { phone: S, device_name: S, fcm: Option<S> },
    /// The name of the user who has logged in.
    LoginName { user_id: S, phone: S, device_name: S, fcm: Option<S> },
    /// The new account.
    Register { username: S, device_name: S, fcm: Option<S> },
    /// The new session.
    NewSession { user_id: S, username: S, device_name: S, fcm: Option<S> },
    /// The push token to be stored.
    PushToken { user_id: S, token: S, username: S },
    /// The private messages from before.
    PrivateHistory,
    /// The messages to groups from before.
    GroupHistory,
    /// The messages to channels from before.
    ChannelHistory,
    /// The next message.
    Ready,
    /// What comes of a command.
    Command { command: Command<S> },
    /// Whether there is a user to get a message.
    PrivateCheck { post: Post<S, B> },
    /// A private message to be stored.
    PrivateStore { post: Post<S, B> },
    /// The push tokens of the user who gets a message.
    PrivatePush { post: Post<S, B> },
    /// Whether the user is in a room.
    RoomCheck { room: Room, post: Post<S, B> },
    /// Whether a channel is the user's own.
    ChannelOwner { post: Post<S, B> },
    /// A message to a room to be stored.
    RoomStore { room: Room, post: Post<S, B> },
    /// The users in a room.
    RoomMembers { room: Room, post: Post<S, B> },
    /// The push tokens of a user in a room. `rest` is who comes next.
    RoomPush { room: Room, post: Post<S, B>, rest: L },
    /// Nothing more.
    Closed,
}

pub type PhaseView = Phase<Seq<char>, Seq<Seq<char>>, Seq<u8>>;

impl View for Phase<String, Vec<String>, Vec<u8>> {
    type V = PhaseView;

    open spec fn view(&self) -> PhaseView {
        match self {
            Phase::Auth => Phase::Auth,
            Phase::Token { token, device_name, fcm } => Phase::Token {
                token: token@,
                device_name: device_name@,
                fcm: text::option_text(*fcm),
            },
            Phase::Login { phone, device_name, fcm } => Phase::Login {
                phone: phone@,
                device_name: device_name@,
                fcm: text::option_text(*fcm),
            },
            Phase::LoginName { user_id, phone, device_name, fcm } => Phase::LoginName {
                user_id: user_id@,
                phone: phone@,
                device_name: device_name@,
                fcm: text::option_text(*fcm),
            },
            Phase::Register { username, device_name, fcm } => Phase::Register {
                username: username@,
                device_name: device_name@,
                fcm: text::option_text(*fcm),
            },
            Phase::NewSession { user_id, username, device_name, fcm } => Phase::NewSession {
                user_id: user_id@,
                username: username@,
                device_name: device_name@,
                fcm: text::option_text(*fcm),
            },
            Phase::PushToken { user_id, token, username } => Phase::PushToken {
                user_id: user_id@,
                token: token@,
                username: username@,
            },
            Phase::PrivateHistory => Phase::PrivateHistory,
            Phase::GroupHistory => Phase::GroupHistory,
            Phase::ChannelHistory => Phase::ChannelHistory,
            Phase::Ready => Phase::Ready,
            Phase::Command { command } => Phase::Command { command: command@ },
            Phase::PrivateCheck { post } => Phase::PrivateCheck { post: post@ },
            Phase::PrivateStore { post } => Phase::PrivateStore { post: post@ },
            Phase::PrivatePush { post } => Phase::PrivatePush { post: post@ },
            Phase::RoomCheck { room, post } => Phase::RoomCheck { room: *room, post: post@ },
            Phase::ChannelOwner { post } => Phase::ChannelOwner { post: post@ },
            Phase::RoomStore { room, post } => Phase::RoomStore { room: *room, post: post@ },
            Phase::RoomMembers { room, post } => Phase::RoomMembers { room: *room, post: post@ },
            Phase::RoomPush { room, post, rest } => Phase::RoomPush {
                room: *room,
                post: post@,
                rest: text::views(rest@),
            },
            Phase::Closed => Phase::Closed,
        }
    }
}

/// What is done about something that has happened.
#[derive(Debug, PartialEq, Eq)]
pub enum Action<S, B, N> {
    /// A message of the server goes to the client.
    System { text: S },
    /// A message of a user goes to a connection, under the key of that connection.
    Encrypted {
        conn: u64,
        keys: SessionKeys,
        sender: S,
        recipient: S,
        plaintext: B,
        timestamp: i64,
    },
    /// A message of the server goes to everybody but one user.
    Broadcast { text: S, exclude: S },
    /// A notification goes to a device.
    Push { token: S, note: N },
}

/// An action as it is performed.
pub type Deed = Action<String, Vec<u8>, Notification>;

pub type DeedView = Action<Seq<char>, Seq<u8>, NotificationView>;

impl View for Action<String, Vec<u8>, Notification> {
    type V = DeedView;

    open spec fn view(&self) -> DeedView {
        match self {
            Action::System { text } => Action::System { text: text@ },
            Action::Encrypted { conn, keys, sender, recipient, plaintext, timestamp } =>
                Action::Encrypted {
                    conn: *conn,
                    keys: *keys,
                    sender: sender@,
                    recipient: recipient@,
                    plaintext: plaintext@,
                    timestamp: *timestamp,
                },
            Action::Broadcast { text, exclude } => Action::Broadcast {
                text: text@,
                exclude: exclude@,
            },
            Action::Push { token, note } => Action::Push { token: token@, note: note@ },
        }
    }
}

/// What comes next.
#[derive(Debug, PartialEq, Eq)]
pub enum Next<S> {
    /// The client's next message is awaited.
    Read,
    /// The database is asked, and what comes of it is awaited.
    Ask(DbCall<S>),
    /// Nothing more is read.
    Stop,
}

impl View for Next<String> {
    type V = Next<Seq<char>>;

    open spec fn view(&self) -> Next<Seq<char>> {
        match self {
            Next::Read => Next::Read,
            Next::Ask(call) => Next::Ask(call@),
            Next::Stop => Next::Stop,
        }
    }
}

/// One client.
pub struct Client {
    /// The number of its connection.
    pub conn: u64,
    /// The key that its connection has until the user is known.
    pub temp_id: String,
    pub session: Session,
    /// The name under which the user has signed in.
    pub name: String,
    pub phase: Phase<String, Vec<String>, Vec<u8>>,
}

#[verifier::ext_equal]
pub struct ClientView {
    pub conn: u64,
    pub temp_id: Seq<char>,
    pub session: SessionView,
    pub name: Seq<char>,
    pub phase: PhaseView,
}

impl View for Client {
    type V = ClientView;

    open spec fn view(&self) -> ClientView {
        ClientView {
            conn: self.conn,
            temp_id: self.temp_id@,
            session: self.session@,
            name: self.name@,
            phase: self.phase@,
        }
    }
}

/// Something that happens to a client.
pub enum Event {
    /// Something was read from its connection, at the time `now` on a clock that never
    /// goes back, in nanoseconds, and `clock` on the wall, in milliseconds since 1970.
    Frame { incoming: Incoming, now: u64, clock: i64 },
    /// The database is done.
    Db(Result<Answer, String>),
}

pub enum EventView {
    Frame { incoming: IncomingView, now: u64, clock: i64 },
    Db(db::Outcome),
}

impl View for Event {
    type V = EventView;

    open spec fn view(&self) -> EventView {
        match self {
            Event::Frame { incoming, now, clock } => EventView::Frame {
                incoming: incoming@,
                now: *now,
                clock: *clock,
            },
            Event::Db(outcome) => EventView::Db(db::outcome_of(*outcome)),
        }
    }
}

/// What is done about an event, and what comes next.
#[derive(Debug, PartialEq, Eq)]
pub struct Turn {
    pub actions: Vec<Deed>,
    pub next: Next<String>,
}

/// What becomes of a client and of the server by an event.
#[verifier::ext_equal]
pub struct TurnView {
    pub client: ClientView,
    pub state: state::AppStateView,
    pub actions: Seq<DeedView>,
    pub next: Next<Seq<char>>,
}

/// The client and the server as they are behind a turn, with what is done.
pub open spec fn turned(
    client: ClientView,
    state: state::AppStateView,
    turn: Turn,
) -> TurnView {
    TurnView { client, state, actions: text::views(turn.actions@), next: turn.next@ }
}

/// The sort of answer that the client waits for, where it waits for the database.
pub open spec fn awaits(phase: PhaseView) -> Option<Kind> {
    match phase {
        Phase::Auth => None,
        Phase::Token { .. } => Some(Kind::Account),
        Phase::Login { .. } => Some(Kind::Text),
        Phase::LoginName { .. } => Some(Kind::Text),
        Phase::Register { .. } => Some(Kind::Text),
        Phase::NewSession { .. } => Some(Kind::Text),
        Phase::PushToken { .. } => Some(Kind::Unit),
        Phase::PrivateHistory => Some(Kind::Messages),
        Phase::GroupHistory => Some(Kind::Messages),
        Phase::ChannelHistory => Some(Kind::Messages),
        Phase::Ready => None,
        Phase::Command { command } => Some(
            db::call_kind(command::call_of(command, Seq::empty())),
        ),
        Phase::PrivateCheck { .. } => Some(Kind::Flag),
        Phase::PrivateStore { .. } => Some(Kind::Unit),
        Phase::PrivatePush { .. } => Some(Kind::Names),
        Phase::RoomCheck { .. } => Some(Kind::Flag),
        Phase::ChannelOwner { .. } => Some(Kind::Flag),
        Phase::RoomStore { .. } => Some(Kind::Unit),
        Phase::RoomMembers { .. } => Some(Kind::Names),
        Phase::RoomPush { .. } => Some(Kind::Names),
        Phase::Closed => None,
    }
}

fn command_kind(command: &Command<String>) -> (r: Kind)
    ensures
        r == db::call_kind(command::call_of(command@, Seq::empty())),
{
    match command {
        Command::GroupMembers { .. } => Kind::Names,
        Command::ListGroups => Kind::Names,
        Command::Channels => Kind::Names,
        Command::ListUsers => Kind::Names,
        Command::Profile => Kind::Profile,
        _ => Kind::Unit,
    }
}

fn awaited(phase: &Phase<String, Vec<String>, Vec<u8>>) -> (r: Option<Kind>)
    ensures
        r == awaits(phase@),
{
    match phase {
        Phase::Auth => None,
        Phase::Token { .. } => Some(Kind::Account),
        Phase::Login { .. } => Some(Kind::Text),
        Phase::LoginName { .. } => Some(Kind::Text),
        Phase::Register { .. } => Some(Kind::Text),
        Phase::NewSession { .. } => Some(Kind::Text),
        Phase::PushToken { .. } => Some(Kind::Unit),
        Phase::PrivateHistory => Some(Kind::Messages),
        Phase::GroupHistory => Some(Kind::Messages),
        Phase::ChannelHistory => Some(Kind::Messages),
        Phase::Ready => None,
        Phase::Command { command } => Some(command_kind(command)),
        Phase::PrivateCheck { .. } => Some(Kind::Flag),
        Phase::PrivateStore { .. } => Some(Kind::Unit),
        Phase::PrivatePush { .. } => Some(Kind::Names),
        Phase::RoomCheck { .. } => Some(Kind::Flag),
        Phase::ChannelOwner { .. } => Some(Kind::Flag),
        Phase::RoomStore { .. } => Some(Kind::Unit),
        Phase::RoomMembers { .. } => Some(Kind::Names),
        Phase::RoomPush { .. } => Some(Kind::Names),
        Phase::Closed => None,
    }
}

/// Whether a message that is not empty holds every part that its type has.
pub open spec fn frame_complete(data: Seq<u8>) -> bool {
    if data[0] == wire::MSG_TYPE_USER {
        wire::user_frame_complete(data.skip(1))
    } else if data[0] == wire::MSG_TYPE_COMMAND {
        data.len() >= 5
    } else {
        true
    }
}

fn is_frame_complete(data: &Vec<u8>) -> (r: bool)
    requires
        data@.len() > 0,
    ensures
        r == frame_complete(data@),
{
    if data[0] == wire::MSG_TYPE_USER {
        let rest = wire::copy_range(data.as_slice(), 1, data.len());
        assert(rest@ =~= data@.skip(1));
        wire::is_user_frame_complete(rest.as_slice())
    } else if data[0] == wire::MSG_TYPE_COMMAND {
        data.len() >= 5
    } else {
        true
    }
}

/// Whether a client can take the event: one that it waits for. Of a message each part
/// is there, unless the message is not looked at since there are too many; and of the
/// messages there are not so many that they cannot be counted.
pub open spec fn takes(client: ClientView, event: EventView) -> bool {
    match event {
        EventView::Frame { incoming, now, .. } => match client.phase {
            Phase::Auth => incoming matches IncomingView::Binary(data)
                ==> auth::auth_frame_complete(data),
            Phase::Ready => incoming matches IncomingView::Binary(data) ==> data.len() == 0 || {
                &&& client.session.msg_count < usize::MAX
                &&& client.session.admits(now) ==> frame_complete(data)
            },
            _ => false,
        },
        EventView::Db(outcome) => match awaits(client.phase) {
            Some(kind) => outcome matches Ok(value) ==> db::kind_of(value) == kind,
            None => false,
        },
    }
}

impl Client {
    /// Tells whether the client can take the event.
    pub fn accepts(&self, event: &Event) -> (r: bool)
        ensures
            r == takes(self@, event@),
    {
        match event {
            Event::Frame { incoming, now, clock: _ } => match &self.phase {
                Phase::Auth => match incoming {
                    Incoming::Binary(data) => auth::is_auth_frame_complete(data.as_slice()),
                    _ => true,
                },
                Phase::Ready => match incoming {
                    Incoming::Binary(data) => {
                        if data.len() == 0 {
                            return true;
                        }
                        if self.session.msg_count == usize::MAX {
                            return false;
                        }
                        !self.session.would_admit(*now) || is_frame_complete(data)
                    },
                    _ => true,
                },
                _ => false,
            },
            Event::Db(outcome) => match awaited(&self.phase) {
                Some(kind) => match outcome {
                    Ok(value) => db::value_kind(value) == kind,
                    Err(_) => true,
                },
                None => false,
            },
        }
    }
}

/// A client takes every message that holds what its type has: of a user the parts up to the
/// encrypted text, of a command and of a first message four bytes before the text, and of
/// any other nothing. A message over the limit is taken whatever it holds, and so is
/// whatever is no binary message.
pub proof fn law_takes_messages(
    client: ClientView,
    data: Seq<u8>,
    incoming: IncomingView,
    now: u64,
    clock: i64,
)
    requires
        client.phase is Auth || client.phase is Ready,
        !(incoming is Binary),
    ensures
        takes(client, EventView::Frame { incoming, now, clock }),
        client.phase is Auth ==> (takes(
            client,
            EventView::Frame { incoming: IncomingView::Binary(data), now, clock },
        ) <==> data.len() == 0 || data[0] != 4 || data.len() >= 5),
        client.phase is Ready && client.session.msg_count < usize::MAX ==> (takes(
            client,
            EventView::Frame { incoming: IncomingView::Binary(data), now, clock },
        ) <==> data.len() == 0 || !client.session.admits(now) || (data[0] == 1
            && wire::user_frame_complete(data.skip(1))) || (data[0] == 3 && data.len() >= 5) || (
        data[0] != 1 && data[0] != 3)),
{
}

/// A client that waits for the database takes each failure, and each value of the sort that
/// it waits for.
pub proof fn law_takes_answers(client: ClientView, value: db::AnswerView, e: Seq<char>)
    requires
        awaits(client.phase) is Some,
    ensures
        takes(client, EventView::Db(Err(e))),
        db::kind_of(value) == awaits(client.phase)->Some_0 ==> takes(
            client,
            EventView::Db(Ok(value)),
        ),
{
}

} // verus!
