//! One client, from its first message to its last.

use crate::crypto;
use crate::crypto::{Incoming, IncomingView, SessionKeys};
use crate::db;
use crate::db::{Answer, DbCall, Room};
use crate::identity;
use crate::posting;
use crate::session;
use crate::session::Session;
use crate::signin;
use crate::state;
use crate::state::{AppState, Peer};
use crate::store;
use crate::text;
use crate::turn;
use crate::turn::{Action, Client, Event, Next, Phase, Turn};
use crate::wire;
use vstd::prelude::*;

verus! {

broadcast use {text::lemma_views_push, text::lemma_views_len, text::lemma_views_index};

/// A client whose keys are agreed on, and who is not signed in.
pub open spec fn new_client(
    conn: u64,
    temp_id: Seq<char>,
    keys: SessionKeys,
    now: u64,
) -> turn::ClientView {
    turn::ClientView {
        conn,
        temp_id,
        session: session::SessionView {
            keys,
            connected: true,
            user_id: None,
            username: None,
            token: None,
            last_msg_time: now,
            msg_count: 0,
        },
        name: Seq::empty(),
        phase: Phase::Auth,
    }
}

impl Client {
    /// A client whose keys are agreed on. The server knows the connection under
    /// `temp_id` from now on.
    pub fn enter(
        state: &mut AppState,
        conn: u64,
        temp_id: String,
        keys: SessionKeys,
        now: u64,
    ) -> (r: Client)
        requires
            old(state).wf(),
        ensures
            final(state).wf(),
            r@ == new_client(conn, temp_id@, keys, now),
            final(state)@ == old(state)@.connected(temp_id@, signin::peer_of(r@)),
    {
        let session = Session::new(keys, now);
        let peer = Peer { conn, keys, connected: true, username: None };
        state.connect(temp_id.clone(), peer);
        Client { conn, temp_id, session, name: String::new(), phase: Phase::Auth }
    }

    /// A client whose keys are agreed on. The server knows the connection under a
    /// fresh key from now on.
    pub fn connect(state: &mut AppState, conn: u64, keys: SessionKeys, now: u64) -> (r: Client)
        requires
            old(state).wf(),
        ensures
            final(state).wf(),
            identity::is_id(r@.temp_id),
            r@ == new_client(conn, r@.temp_id, keys, now),
            final(state)@ == old(state)@.connected(r@.temp_id, signin::peer_of(r@)),
    {
        let temp_id = identity::new_id();
        Self::enter(state, conn, temp_id, keys, now)
    }
}

/// The user has left, which everybody else is told.
pub open spec fn closed_turn(c: turn::ClientView, s: state::AppStateView) -> turn::TurnView {
    let username = store::text_or_empty(c.session.username);
    let token = store::text_or_empty(c.session.token);
    signin::stopped(
        c,
        s.signed_out(username, token),
        seq![
            Action::Broadcast {
                text: "[Система] Пользователь "@ + username + " отключился"@,
                exclude: username,
            },
        ],
    )
}

fn close(client: &mut Client, state: &mut AppState) -> (r: Turn)
    requires
        old(state).wf(),
    ensures
        final(state).wf(),
        turn::turned(final(client)@, final(state)@, r) == closed_turn(
            old(client)@,
            old(state)@,
        ),
{
    let username = store::or_empty(&client.session.username);
    let token = store::or_empty(&client.session.token);
    state.sign_out(username.as_str(), token.as_str());
    let text = text::concat3("[Система] Пользователь ", username.as_str(), " отключился");
    let mut actions = signin::nothing();
    actions.push(Action::Broadcast { text, exclude: username });
    signin::stop(client, state, actions)
}

/// The time of a message: the one that it states, or else the time of its arrival.
pub open spec fn time_of(stated: Option<int>, clock: i64) -> i64 {
    match stated {
        Some(t) => t as i64,
        None => clock,
    }
}

/// What a message brings that is not empty. What cannot be decrypted, and what is of
/// an unknown type, is passed over.
pub open spec fn data_turn(
    c: turn::ClientView,
    s: state::AppStateView,
    data: Seq<u8>,
    clock: i64,
) -> turn::TurnView {
    let rest = data.skip(1);
    if data[0] == wire::MSG_TYPE_USER {
        let parts = wire::user_frame_parts(rest);
        match crypto::aes256gcm_opened(c.session.keys.key@, parts.nonce, parts.encrypted) {
            Some(plaintext) => posting::post_turn(
                c,
                s,
                parts.recipient,
                plaintext,
                text::utf8_lossy(plaintext),
                time_of(parts.timestamp, clock),
            ),
            None => signin::reading(c, s, Seq::empty()),
        }
    } else if data[0] == wire::MSG_TYPE_COMMAND {
        posting::command_turn(c, s, rest)
    } else {
        signin::reading(c, s, Seq::empty())
    }
}

fn take_data(client: &mut Client, state: &AppState, data: &Vec<u8>, clock: i64) -> (r: Turn)
    requires
        data@.len() > 0,
        turn::frame_complete(data@),
    ensures
        turn::turned(final(client)@, state@, r) == data_turn(
            old(client)@,
            state@,
            data@,
            clock,
        ),
{
    let rest = wire::copy_range(data.as_slice(), 1, data.len());
    assert(rest@ =~= data@.skip(1));
    if data[0] == wire::MSG_TYPE_USER {
        let frame = wire::parse_user_frame(rest.as_slice());
        let timestamp = match frame.timestamp {
            Some(t) => t,
            None => clock,
        };
        let opened = crypto::aes256gcm_decrypt(
            &client.session.keys.key,
            frame.nonce.as_slice(),
            frame.encrypted.as_slice(),
        );
        match opened {
            Some(plaintext) => {
                let content = text::from_utf8_lossy(plaintext.as_slice());
                posting::take_post(
                    client,
                    state,
                    frame.recipient,
                    plaintext,
                    content,
                    timestamp,
                )
            },
            None => signin::read_on(client, state, signin::nothing()),
        }
    } else if data[0] == wire::MSG_TYPE_COMMAND {
        posting::take_command(client, state, &rest)
    } else {
        signin::read_on(client, state, signin::nothing())
    }
}

/// The client with one more message counted.
pub open spec fn counted(c: turn::ClientView, now: u64) -> turn::ClientView {
    turn::ClientView { session: c.session.counted(now), ..c }
}

/// What comes from the connection of a user who is signed in. Too many messages are
/// answered, and not looked at.
pub open spec fn frame_turn(
    c: turn::ClientView,
    s: state::AppStateView,
    incoming: IncomingView,
    now: u64,
    clock: i64,
) -> turn::TurnView {
    match incoming {
        IncomingView::Failed(_) => closed_turn(c, s),
        IncomingView::End => closed_turn(c, s),
        IncomingView::Other => signin::reading(c, s, Seq::empty()),
        IncomingView::Binary(data) => if data.len() == 0 {
            signin::reading(c, s, Seq::empty())
        } else if c.session.admits(now) {
            data_turn(counted(c, now), s, data, clock)
        } else {
            signin::reading(
                counted(c, now),
                s,
                seq![signin::said("[Система] Слишком много сообщений, подождите"@)],
            )
        },
    }
}

fn take_frame(
    client: &mut Client,
    state: &mut AppState,
    incoming: &Incoming,
    now: u64,
    clock: i64,
) -> (r: Turn)
    requires
        old(state).wf(),
        incoming@ matches IncomingView::Binary(data) ==> data.len() == 0 || {
            &&& old(client).session.msg_count < usize::MAX
            &&& old(client)@.session.admits(now) ==> turn::frame_complete(data)
        },
    ensures
        final(state).wf(),
        turn::turned(final(client)@, final(state)@, r) == frame_turn(
            old(client)@,
            old(state)@,
            incoming@,
            now,
            clock,
        ),
{
    match incoming {
        Incoming::Failed(_) => close(client, state),
        Incoming::End => close(client, state),
        Incoming::Other => signin::read_on(client, state, signin::nothing()),
        Incoming::Binary(data) => {
            if data.len() == 0 {
                return signin::read_on(client, state, signin::nothing());
            }
            if client.session.check_rate_limit(now) {
                take_data(client, state, data, clock)
            } else {
                let answer = "[Система] Слишком много сообщений, подождите";
                signin::read_on(client, state, signin::say(answer.to_owned()))
            }
        },
    }
}

/// What an answer of the database brings.
pub open spec fn db_turn(
    c: turn::ClientView,
    s: state::AppStateView,
    outcome: db::Outcome,
) -> turn::TurnView {
    match c.phase {
        Phase::Token { token, device_name, fcm } => signin::token_turn(
            c,
            s,
            token,
            device_name,
            fcm,
            outcome,
        ),
        Phase::Login { phone, device_name, fcm } => signin::login_turn(
            c,
            s,
            phone,
            device_name,
            fcm,
            outcome,
        ),
        Phase::LoginName { user_id, phone, device_name, fcm } => signin::login_name_turn(
            c,
            s,
            user_id,
            phone,
            device_name,
            fcm,
            outcome,
        ),
        Phase::Register { username, device_name, fcm } => signin::register_turn(
            c,
            s,
            username,
            device_name,
            fcm,
            outcome,
        ),
        Phase::NewSession { user_id, username, device_name, fcm } => signin::session_turn(
            c,
            s,
            user_id,
            username,
            device_name,
            fcm,
            outcome,
        ),
        Phase::PushToken { user_id, token, username } => signin::signed_in(
            c,
            s,
            Seq::empty(),
            user_id,
            token,
            username,
        ),
        Phase::PrivateHistory => signin::private_history_turn(c, s, outcome),
        Phase::GroupHistory => signin::group_history_turn(c, s, outcome),
        Phase::ChannelHistory => signin::channel_history_turn(c, s, outcome),
        Phase::Command { command } => posting::answer_turn(c, s, command, outcome),
        Phase::PrivateCheck { post } => posting::private_check_turn(c, s, post, outcome),
        Phase::PrivateStore { post } => posting::private_store_turn(c, s, post),
        Phase::PrivatePush { post } => posting::private_push_turn(c, s, post, outcome),
        Phase::RoomCheck { room, post } => posting::room_check_turn(c, s, room, post, outcome),
        Phase::ChannelOwner { post } => posting::channel_owner_turn(c, s, post, outcome),
        Phase::RoomStore { room, post } => posting::room_store_turn(c, s, room, post),
        Phase::RoomMembers { room, post } => posting::room_members_turn(
            c,
            s,
            room,
            post,
            outcome,
        ),
        Phase::RoomPush { room, post, rest } => posting::room_push_turn(
            c,
            s,
            room,
            post,
            rest,
            outcome,
        ),
        Phase::Auth => arbitrary(),
        Phase::Ready => arbitrary(),
        Phase::Closed => arbitrary(),
    }
}

fn take_outcome(client: &mut Client, state: &mut AppState, outcome: Result<Answer, String>) -> (r:
    Turn)
    requires
        old(state).wf(),
        turn::takes(old(client)@, turn::EventView::Db(db::outcome_of(outcome))),
    ensures
        final(state).wf(),
        turn::turned(final(client)@, final(state)@, r) == db_turn(
            old(client)@,
            old(state)@,
            db::outcome_of(outcome),
        ),
{
    let mut phase: Phase<String, Vec<String>, Vec<u8>> = Phase::Closed;
    std::mem::swap(&mut phase, &mut client.phase);
    match phase {
        Phase::Token { token, device_name, fcm } => signin::take_token(
            client,
            state,
            token,
            device_name,
            fcm,
            outcome,
        ),
        Phase::Login { phone, device_name, fcm } => signin::take_login(
            client,
            state,
            phone,
            device_name,
            fcm,
            outcome,
        ),
        Phase::LoginName { user_id, phone, device_name, fcm } => signin::take_login_name(
            client,
            state,
            user_id,
            phone,
            device_name,
            fcm,
            outcome,
        ),
        Phase::Register { username, device_name, fcm } => signin::take_register(
            client,
            state,
            username,
            device_name,
            fcm,
            outcome,
        ),
        Phase::NewSession { user_id, username, device_name, fcm } => signin::take_session(
            client,
            state,
            user_id,
            username,
            device_name,
            fcm,
            outcome,
        ),
        Phase::PushToken { user_id, token, username } => signin::sign_in(
            client,
            state,
            signin::nothing(),
            user_id,
            token,
            username,
        ),
        Phase::PrivateHistory => signin::take_private_history(client, state, outcome),
        Phase::GroupHistory => signin::take_group_history(client, state, outcome),
        Phase::ChannelHistory => signin::take_channel_history(client, state, outcome),
        Phase::Command { command } => posting::take_answer(client, state, command, outcome),
        Phase::PrivateCheck { post } => posting::take_private_check(
            client,
            state,
            post,
            outcome,
        ),
        Phase::PrivateStore { post } => posting::take_private_store(client, state, post),
        Phase::PrivatePush { post } => posting::take_private_push(client, state, post, outcome),
        Phase::RoomCheck { room, post } => posting::take_room_check(
            client,
            state,
            room,
            post,
            outcome,
        ),
        Phase::ChannelOwner { post } => posting::take_channel_owner(
            client,
            state,
            post,
            outcome,
        ),
        Phase::RoomStore { room, post } => posting::take_room_store(client, state, room, post),
        Phase::RoomMembers { room, post } => posting::take_room_members(
            client,
            state,
            room,
            post,
            outcome,
        ),
        Phase::RoomPush { room, post, rest } => posting::take_room_push(
            client,
            state,
            room,
            post,
            rest,
            outcome,
        ),
        _ => {
            assert(false);
            signin::stop(client, state, signin::nothing())
        },
    }
}

/// What becomes of the client and of the server by the event.
pub open spec fn step_of(
    c: turn::ClientView,
    s: state::AppStateView,
    event: turn::EventView,
) -> turn::TurnView {
    match event {
        turn::EventView::Frame { incoming, now, clock } => match c.phase {
            Phase::Auth => signin::auth_turn(c, s, incoming),
            Phase::Ready => frame_turn(c, s, incoming, now, clock),
            _ => arbitrary(),
        },
        turn::EventView::Db(outcome) => db_turn(c, s, outcome),
    }
}

impl Client {
    /// Takes an event: says what is to be done about it and what comes next.
    pub fn step(&mut self, state: &mut AppState, event: Event) -> (r: Turn)
        requires
            old(state).wf(),
            turn::takes(old(self)@, event@),
        ensures
            final(state).wf(),
            turn::turned(final(self)@, final(state)@, r) == step_of(
                old(self)@,
                old(state)@,
                event@,
            ),
    {
        match event {
            Event::Frame { incoming, now, clock } => {
                let first = match &self.phase {
                    Phase::Auth => true,
                    _ => false,
                };
                if first {
                    signin::take_auth(self, state, &incoming)
                } else {
                    take_frame(self, state, &incoming, now, clock)
                }
            },
            Event::Db(outcome) => take_outcome(self, state, outcome),
        }
    }
}

} // verus!
