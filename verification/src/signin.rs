//! From the first message of a client to the end of its history.

use crate::auth;
use crate::auth::AuthRequest;
use crate::crypto::{Incoming, IncomingView};
use crate::db;
use crate::db::{Answer, DbCall, DbValue, Room, StoredMessage};
use crate::state;
use crate::state::{AppState, Peer};
use crate::store;
use crate::text;
use crate::turn;
use crate::turn::{Action, Client, Deed, Next, Phase, Turn};
use vstd::prelude::*;
use vstd::utf8::*;

verus! {

broadcast use {text::lemma_views_push, text::lemma_views_len, text::lemma_views_index};

/// The client waits for its next message.
pub open spec fn reading(
    c: turn::ClientView,
    s: state::AppStateView,
    actions: Seq<turn::DeedView>,
) -> turn::TurnView {
    turn::TurnView {
        client: turn::ClientView { phase: Phase::Ready, ..c },
        state: s,
        actions,
        next: Next::Read,
    }
}

/// The client waits for the database.
pub open spec fn asking(
    c: turn::ClientView,
    s: state::AppStateView,
    actions: Seq<turn::DeedView>,
    phase: turn::PhaseView,
    call: DbCall<Seq<char>>,
) -> turn::TurnView {
    turn::TurnView {
        client: turn::ClientView { phase, ..c },
        state: s,
        actions,
        next: Next::Ask(call),
    }
}

/// Nothing more is done for the client.
pub open spec fn stopped(
    c: turn::ClientView,
    s: state::AppStateView,
    actions: Seq<turn::DeedView>,
) -> turn::TurnView {
    turn::TurnView {
        client: turn::ClientView { phase: Phase::Closed, ..c },
        state: s,
        actions,
        next: Next::Stop,
    }
}

/// A message of the server to the client.
pub open spec fn said(text: Seq<char>) -> turn::DeedView {
    Action::System { text }
}

pub(crate) fn nothing() -> (r: Vec<Deed>)
    ensures
        text::views(r@) == Seq::<turn::DeedView>::empty(),
{
    let r: Vec<Deed> = Vec::new();
    assert(text::views(r@) =~= Seq::<turn::DeedView>::empty());
    r
}

pub(crate) fn say(text: String) -> (r: Vec<Deed>)
    ensures
        text::views(r@) == seq![said(text@)],
{
    let mut r = nothing();
    r.push(Action::System { text });
    r
}

pub(crate) fn read_on(client: &mut Client, state: &AppState, actions: Vec<Deed>) -> (r: Turn)
    ensures
        turn::turned(final(client)@, state@, r) == reading(
            old(client)@,
            state@,
            text::views(actions@),
        ),
{
    client.phase = Phase::Ready;
    Turn { actions, next: Next::Read }
}

pub(crate) fn ask(
    client: &mut Client,
    state: &AppState,
    actions: Vec<Deed>,
    phase: Phase<String, Vec<String>, Vec<u8>>,
    call: DbCall<String>,
) -> (r: Turn)
    ensures
        turn::turned(final(client)@, state@, r) == asking(
            old(client)@,
            state@,
            text::views(actions@),
            phase@,
            call@,
        ),
{
    client.phase = phase;
    Turn { actions, next: Next::Ask(call) }
}

pub(crate) fn stop(client: &mut Client, state: &AppState, actions: Vec<Deed>) -> (r: Turn)
    ensures
        turn::turned(final(client)@, state@, r) == stopped(
            old(client)@,
            state@,
            text::views(actions@),
        ),
{
    client.phase = Phase::Closed;
    Turn { actions, next: Next::Stop }
}

/// The client asks to be signed in. Whatever else it says first ends the connection.
pub open spec fn auth_turn(
    c: turn::ClientView,
    s: state::AppStateView,
    incoming: IncomingView,
) -> turn::TurnView {
    match incoming {
        IncomingView::Binary(data) => match auth::auth_frame_of(data) {
            Some(request) => request_turn(c, s, request),
            None => stopped(c, s, Seq::empty()),
        },
        _ => stopped(c, s, Seq::empty()),
    }
}

/// The client asks to be signed in.
pub open spec fn request_turn(
    c: turn::ClientView,
    s: state::AppStateView,
    request: AuthRequest<Seq<char>>,
) -> turn::TurnView {
    match request {
        AuthRequest::Token { token, device_name, fcm } => asking(
            c,
            s,
            Seq::empty(),
            Phase::Token { token, device_name, fcm },
            DbCall::CheckSession { token },
        ),
        AuthRequest::Login { phone, password, device_name, fcm } => asking(
            c,
            s,
            Seq::empty(),
            Phase::Login { phone, device_name, fcm },
            DbCall::LoginUserByPhone { phone, password },
        ),
        AuthRequest::Register {
            username,
            phone,
            password,
            first_name,
            last_name,
            device_name,
            fcm,
        } => asking(
            c,
            s,
            Seq::empty(),
            Phase::Register { username, device_name, fcm },
            DbCall::RegisterUser { username, phone, password, first_name, last_name },
        ),
        AuthRequest::Unknown { command } => stopped(
            c,
            s,
            seq![said("[Система] Ошибка: Неизвестная команда "@ + command)],
        ),
    }
}

pub(crate) fn take_request(
    client: &mut Client,
    state: &AppState,
    request: AuthRequest<String>,
) -> (r: Turn)
    ensures
        turn::turned(final(client)@, state@, r) == request_turn(
            old(client)@,
            state@,
            request@,
        ),
{
    match request {
        AuthRequest::Token { token, device_name, fcm } => {
            let call = DbCall::CheckSession { token: token.clone() };
            ask(client, state, nothing(), Phase::Token { token, device_name, fcm }, call)
        },
        AuthRequest::Login { phone, password, device_name, fcm } => {
            let call = DbCall::LoginUserByPhone { phone: phone.clone(), password };
            ask(client, state, nothing(), Phase::Login { phone, device_name, fcm }, call)
        },
        AuthRequest::Register {
            username,
            phone,
            password,
            first_name,
            last_name,
            device_name,
            fcm,
        } => {
            let call = DbCall::RegisterUser {
                username: username.clone(),
                phone,
                password,
                first_name,
                last_name,
            };
            ask(client, state, nothing(), Phase::Register { username, device_name, fcm }, call)
        },
        AuthRequest::Unknown { command } => {
            let answer = text::concat2(
                "[Система] Ошибка: Неизвестная команда ",
                command.as_str(),
            );
            stop(client, state, say(answer))
        },
    }
}

pub(crate) fn take_auth(client: &mut Client, state: &AppState, incoming: &Incoming) -> (r: Turn)
    requires
        incoming@ matches IncomingView::Binary(data)
            ==> auth::auth_frame_complete(data),
    ensures
        turn::turned(final(client)@, state@, r) == auth_turn(old(client)@, state@, incoming@),
{
    match incoming {
        Incoming::Binary(data) => match auth::parse_auth(data.as_slice()) {
            Some(request) => take_request(client, state, request),
            None => stop(client, state, nothing()),
        },
        _ => stop(client, state, nothing()),
    }
}

/// The user is not let in, and is told why.
pub open spec fn refused(
    c: turn::ClientView,
    s: state::AppStateView,
    before: Seq<char>,
    why: Seq<char>,
) -> turn::TurnView {
    stopped(c, s, seq![said(before + why)])
}

fn refuse(client: &mut Client, state: &AppState, before: &str, why: &str) -> (r: Turn)
    ensures
        turn::turned(final(client)@, state@, r) == refused(
            old(client)@,
            state@,
            before@,
            why@,
        ),
{
    stop(client, state, say(text::concat2(before, why)))
}

/// The user is let in, and is told the identifier, the token and the name. The push
/// token of the device is stored first, where there is one.
pub open spec fn welcomed(
    c: turn::ClientView,
    s: state::AppStateView,
    user_id: Seq<char>,
    token: Seq<char>,
    username: Seq<char>,
    device_name: Seq<char>,
    fcm: Option<Seq<char>>,
) -> turn::TurnView {
    let greeting = said("Успех|"@ + user_id + "|"@ + token + "|"@ + username);
    match fcm {
        Some(fcm) => asking(
            c,
            s,
            seq![greeting],
            Phase::PushToken { user_id, token, username },
            DbCall::SaveFcmToken { user_id, token: fcm, device_name },
        ),
        None => signed_in(c, s, seq![greeting], user_id, token, username),
    }
}

/// The client as it is once its user is known.
pub open spec fn known(
    c: turn::ClientView,
    user_id: Seq<char>,
    token: Seq<char>,
    username: Seq<char>,
) -> turn::ClientView {
    turn::ClientView {
        session: crate::session::SessionView {
            user_id: Some(user_id),
            username: Some(username),
            token: Some(token),
            ..c.session
        },
        name: username,
        ..c
    }
}

/// The connection of the client as the others see it.
pub open spec fn peer_of(c: turn::ClientView) -> state::PeerView {
    state::PeerView {
        conn: c.conn,
        keys: c.session.keys,
        connected: c.session.connected,
        username: c.session.username,
    }
}

/// The user is online from now on, which everybody else is told. The history comes
/// next.
pub open spec fn signed_in(
    c: turn::ClientView,
    s: state::AppStateView,
    before: Seq<turn::DeedView>,
    user_id: Seq<char>,
    token: Seq<char>,
    username: Seq<char>,
) -> turn::TurnView {
    let k = known(c, user_id, token, username);
    let t = s.signed_in(c.temp_id, token, peer_of(k), username);
    let actions = before.push(
        Action::Broadcast {
            text: "[Система] Пользователь "@ + username + " подключился"@,
            exclude: username,
        },
    );
    if username.len() == 0 {
        reading(k, t, actions)
    } else {
        asking(
            k,
            t,
            actions,
            Phase::PrivateHistory,
            DbCall::GetUserMessages { username, limit: store::HISTORY_LIMIT, offset: 0 },
        )
    }
}

pub(crate) fn sign_in(
    client: &mut Client,
    state: &mut AppState,
    before: Vec<Deed>,
    user_id: String,
    token: String,
    username: String,
) -> (r: Turn)
    requires
        old(state).wf(),
    ensures
        final(state).wf(),
        turn::turned(final(client)@, final(state)@, r) == signed_in(
            old(client)@,
            old(state)@,
            text::views(before@),
            user_id@,
            token@,
            username@,
        ),
{
    let mut actions = before;
    client.session.user_id = Some(user_id);
    client.session.username = Some(username.clone());
    client.session.token = Some(token.clone());
    client.name = username.clone();
    let peer = Peer {
        conn: client.conn,
        keys: client.session.keys,
        connected: client.session.connected,
        username: Some(username.clone()),
    };
    state.sign_in(client.temp_id.as_str(), token.as_str(), peer, username.as_str());
    let text = text::concat3("[Система] Пользователь ", username.as_str(), " подключился");
    actions.push(Action::Broadcast { text, exclude: username.clone() });
    if username.as_str().is_empty() {
        read_on(client, state, actions)
    } else {
        ask(
            client,
            state,
            actions,
            Phase::PrivateHistory,
            DbCall::GetUserMessages { username, limit: store::HISTORY_LIMIT, offset: 0 },
        )
    }
}

fn welcome(
    client: &mut Client,
    state: &mut AppState,
    user_id: String,
    token: String,
    username: String,
    device_name: String,
    fcm: Option<String>,
) -> (r: Turn)
    requires
        old(state).wf(),
    ensures
        final(state).wf(),
        turn::turned(final(client)@, final(state)@, r) == welcomed(
            old(client)@,
            old(state)@,
            user_id@,
            token@,
            username@,
            device_name@,
            text::option_text(fcm),
        ),
{
    let mut greeting = text::concat3("Успех|", user_id.as_str(), "|");
    greeting.append(token.as_str());
    greeting.append("|");
    greeting.append(username.as_str());
    let actions = say(greeting);
    match fcm {
        Some(fcm) => {
            let call = DbCall::SaveFcmToken { user_id: user_id.clone(), token: fcm, device_name };
            ask(client, state, actions, Phase::PushToken { user_id, token, username }, call)
        },
        None => sign_in(client, state, actions, user_id, token, username),
    }
}

/// The token has been looked up.
pub open spec fn token_turn(
    c: turn::ClientView,
    s: state::AppStateView,
    token: Seq<char>,
    device_name: Seq<char>,
    fcm: Option<Seq<char>>,
    outcome: db::Outcome,
) -> turn::TurnView {
    match outcome {
        Ok(DbValue::Account { user_id, username }) => welcomed(
            c,
            s,
            user_id,
            token,
            username,
            device_name,
            fcm,
        ),
        Ok(_) => arbitrary(),
        Err(e) => refused(c, s, "[Система] Ошибка: "@, e),
    }
}

pub(crate) fn take_token(
    client: &mut Client,
    state: &mut AppState,
    token: String,
    device_name: String,
    fcm: Option<String>,
    outcome: Result<Answer, String>,
) -> (r: Turn)
    requires
        old(state).wf(),
        outcome matches Ok(value) ==> db::kind_of(value@) == db::Kind::Account,
    ensures
        final(state).wf(),
        turn::turned(final(client)@, final(state)@, r) == token_turn(
            old(client)@,
            old(state)@,
            token@,
            device_name@,
            text::option_text(fcm),
            db::outcome_of(outcome),
        ),
{
    match outcome {
        Ok(DbValue::Account { user_id, username }) => welcome(
            client,
            state,
            user_id,
            token,
            username,
            device_name,
            fcm,
        ),
        Ok(_) => {
            assert(false);
            stop(client, state, nothing())
        },
        Err(e) => refuse(client, state, "[Система] Ошибка: ", e.as_str()),
    }
}

/// The password has been checked. The name of the user is looked up next.
pub open spec fn login_turn(
    c: turn::ClientView,
    s: state::AppStateView,
    phone: Seq<char>,
    device_name: Seq<char>,
    fcm: Option<Seq<char>>,
    outcome: db::Outcome,
) -> turn::TurnView {
    match outcome {
        Ok(DbValue::Text(user_id)) => asking(
            c,
            s,
            Seq::empty(),
            Phase::LoginName { user_id, phone, device_name, fcm },
            DbCall::UsernameById { user_id },
        ),
        Ok(_) => arbitrary(),
        Err(e) => refused(c, s, "[Система] Ошибка: "@, e),
    }
}

pub(crate) fn take_login(
    client: &mut Client,
    state: &AppState,
    phone: String,
    device_name: String,
    fcm: Option<String>,
    outcome: Result<Answer, String>,
) -> (r: Turn)
    requires
        outcome matches Ok(value) ==> db::kind_of(value@) == db::Kind::Text,
    ensures
        turn::turned(final(client)@, state@, r) == login_turn(
            old(client)@,
            state@,
            phone@,
            device_name@,
            text::option_text(fcm),
            db::outcome_of(outcome),
        ),
{
    match outcome {
        Ok(DbValue::Text(user_id)) => {
            let call = DbCall::UsernameById { user_id: user_id.clone() };
            ask(
                client,
                state,
                nothing(),
                Phase::LoginName { user_id, phone, device_name, fcm },
                call,
            )
        },
        Ok(_) => {
            assert(false);
            stop(client, state, nothing())
        },
        Err(e) => refuse(client, state, "[Система] Ошибка: ", e.as_str()),
    }
}

/// A session is opened for the user.
pub open spec fn session_asked(
    c: turn::ClientView,
    s: state::AppStateView,
    user_id: Seq<char>,
    username: Seq<char>,
    device_name: Seq<char>,
    fcm: Option<Seq<char>>,
) -> turn::TurnView {
    asking(
        c,
        s,
        Seq::empty(),
        Phase::NewSession { user_id, username, device_name, fcm },
        DbCall::CreateSession { user_id, device_name },
    )
}

fn ask_session(
    client: &mut Client,
    state: &AppState,
    user_id: String,
    username: String,
    device_name: String,
    fcm: Option<String>,
) -> (r: Turn)
    ensures
        turn::turned(final(client)@, state@, r) == session_asked(
            old(client)@,
            state@,
            user_id@,
            username@,
            device_name@,
            text::option_text(fcm),
        ),
{
    let call = DbCall::CreateSession {
        user_id: user_id.clone(),
        device_name: device_name.clone(),
    };
    ask(
        client,
        state,
        nothing(),
        Phase::NewSession { user_id, username, device_name, fcm },
        call,
    )
}

/// The name of the user has been looked up. The phone number stands in for it.
pub open spec fn login_name_turn(
    c: turn::ClientView,
    s: state::AppStateView,
    user_id: Seq<char>,
    phone: Seq<char>,
    device_name: Seq<char>,
    fcm: Option<Seq<char>>,
    outcome: db::Outcome,
) -> turn::TurnView {
    match outcome {
        Ok(DbValue::Text(username)) => session_asked(c, s, user_id, username, device_name, fcm),
        Ok(_) => arbitrary(),
        Err(_) => session_asked(c, s, user_id, phone, device_name, fcm),
    }
}

pub(crate) fn take_login_name(
    client: &mut Client,
    state: &AppState,
    user_id: String,
    phone: String,
    device_name: String,
    fcm: Option<String>,
    outcome: Result<Answer, String>,
) -> (r: Turn)
    requires
        outcome matches Ok(value) ==> db::kind_of(value@) == db::Kind::Text,
    ensures
        turn::turned(final(client)@, state@, r) == login_name_turn(
            old(client)@,
            state@,
            user_id@,
            phone@,
            device_name@,
            text::option_text(fcm),
            db::outcome_of(outcome),
        ),
{
    match outcome {
        Ok(DbValue::Text(username)) => ask_session(
            client,
            state,
            user_id,
            username,
            device_name,
            fcm,
        ),
        Ok(_) => {
            assert(false);
            stop(client, state, nothing())
        },
        Err(_) => ask_session(client, state, user_id, phone, device_name, fcm),
    }
}

/// The user has been registered.
pub open spec fn register_turn(
    c: turn::ClientView,
    s: state::AppStateView,
    username: Seq<char>,
    device_name: Seq<char>,
    fcm: Option<Seq<char>>,
    outcome: db::Outcome,
) -> turn::TurnView {
    match outcome {
        Ok(DbValue::Text(user_id)) => session_asked(c, s, user_id, username, device_name, fcm),
        Ok(_) => arbitrary(),
        Err(e) => refused(c, s, "[Система] Ошибка: "@, e),
    }
}

pub(crate) fn take_register(
    client: &mut Client,
    state: &AppState,
    username: String,
    device_name: String,
    fcm: Option<String>,
    outcome: Result<Answer, String>,
) -> (r: Turn)
    requires
        outcome matches Ok(value) ==> db::kind_of(value@) == db::Kind::Text,
    ensures
        turn::turned(final(client)@, state@, r) == register_turn(
            old(client)@,
            state@,
            username@,
            device_name@,
            text::option_text(fcm),
            db::outcome_of(outcome),
        ),
{
    match outcome {
        Ok(DbValue::Text(user_id)) => ask_session(
            client,
            state,
            user_id,
            username,
            device_name,
            fcm,
        ),
        Ok(_) => {
            assert(false);
            stop(client, state, nothing())
        },
        Err(e) => refuse(client, state, "[Система] Ошибка: ", e.as_str()),
    }
}

/// The session has been opened.
pub open spec fn session_turn(
    c: turn::ClientView,
    s: state::AppStateView,
    user_id: Seq<char>,
    username: Seq<char>,
    device_name: Seq<char>,
    fcm: Option<Seq<char>>,
    outcome: db::Outcome,
) -> turn::TurnView {
    match outcome {
        Ok(DbValue::Text(token)) => welcomed(c, s, user_id, token, username, device_name, fcm),
        Ok(_) => arbitrary(),
        Err(e) => refused(c, s, "[Система] Ошибка создания сессии: "@, e),
    }
}

pub(crate) fn take_session(
    client: &mut Client,
    state: &mut AppState,
    user_id: String,
    username: String,
    device_name: String,
    fcm: Option<String>,
    outcome: Result<Answer, String>,
) -> (r: Turn)
    requires
        old(state).wf(),
        outcome matches Ok(value) ==> db::kind_of(value@) == db::Kind::Text,
    ensures
        final(state).wf(),
        turn::turned(final(client)@, final(state)@, r) == session_turn(
            old(client)@,
            old(state)@,
            user_id@,
            username@,
            device_name@,
            text::option_text(fcm),
            db::outcome_of(outcome),
        ),
{
    match outcome {
        Ok(DbValue::Text(token)) => welcome(
            client,
            state,
            user_id,
            token,
            username,
            device_name,
            fcm,
        ),
        Ok(_) => {
            assert(false);
            stop(client, state, nothing())
        },
        Err(e) => refuse(client, state, "[Система] Ошибка создания сессии: ", e.as_str()),
    }
}

/// A message from before, as it goes to the client. `mark` stands before the name of
/// a room.
pub open spec fn replayed(
    c: turn::ClientView,
    mark: Seq<char>,
    message: StoredMessage<Seq<char>>,
) -> turn::DeedView {
    Action::Encrypted {
        conn: c.conn,
        keys: c.session.keys,
        sender: message.sender,
        recipient: mark + message.recipient,
        plaintext: encode_utf8(message.content),
        timestamp: message.timestamp,
    }
}

/// The messages from before, in their order. Where they could not be read there are
/// none.
pub open spec fn history_actions(
    c: turn::ClientView,
    mark: Seq<char>,
    outcome: db::Outcome,
) -> Seq<turn::DeedView> {
    match outcome {
        Ok(DbValue::Messages(messages)) => Seq::new(
            messages.len(),
            |i: int| replayed(c, mark, messages[i]),
        ),
        _ => Seq::empty(),
    }
}

fn bytes_of(s: &str) -> (r: Vec<u8>)
    ensures
        r@ == encode_utf8(s@),
{
    let bytes = s.as_bytes();
    let r = crate::wire::copy_range(bytes, 0, bytes.len());
    assert(bytes@.subrange(0, bytes@.len() as int) =~= bytes@);
    r
}

fn replay(client: &Client, mark: &str, outcome: &Result<Answer, String>) -> (r: Vec<Deed>)
    ensures
        text::views(r@) == history_actions(client@, mark@, db::outcome_of(*outcome)),
{
    match outcome {
        Ok(DbValue::Messages(messages)) => {
            let ghost all: Seq<StoredMessage<Seq<char>>> = text::views(messages@);
            let mut r = nothing();
            let mut i: usize = 0;
            while i < messages.len()
                invariant
                    i <= messages@.len(),
                    all == text::views(messages@),
                    text::views(r@) == Seq::new(
                        i as nat,
                        |i: int| replayed(client@, mark@, all[i]),
                    ),
                decreases messages@.len() - i,
            {
                let m = &messages[i];
                assert(m@ == all[i as int]);
                r.push(
                    Action::Encrypted {
                        conn: client.conn,
                        keys: client.session.keys,
                        sender: m.sender.clone(),
                        recipient: text::concat2(mark, m.recipient.as_str()),
                        plaintext: bytes_of(m.content.as_str()),
                        timestamp: m.timestamp,
                    },
                );
                i = i + 1;
                assert(text::views(r@) =~= Seq::new(
                    i as nat,
                    |i: int| replayed(client@, mark@, all[i]),
                ));
            }
            r
        },
        _ => nothing(),
    }
}

/// The private messages from before go to the client. Those to groups come next.
pub open spec fn private_history_turn(
    c: turn::ClientView,
    s: state::AppStateView,
    outcome: db::Outcome,
) -> turn::TurnView {
    asking(
        c,
        s,
        history_actions(c, Seq::empty(), outcome),
        Phase::GroupHistory,
        DbCall::RoomHistory { room: Room::Group, username: c.name },
    )
}

pub(crate) fn take_private_history(
    client: &mut Client,
    state: &AppState,
    outcome: Result<Answer, String>,
) -> (r: Turn)
    ensures
        turn::turned(final(client)@, state@, r) == private_history_turn(
            old(client)@,
            state@,
            db::outcome_of(outcome),
        ),
{
    let none = String::new();
    let actions = replay(client, none.as_str(), &outcome);
    let call = DbCall::RoomHistory { room: Room::Group, username: client.name.clone() };
    ask(client, state, actions, Phase::GroupHistory, call)
}

/// The messages to groups from before go to the client. Those to channels come next.
pub open spec fn group_history_turn(
    c: turn::ClientView,
    s: state::AppStateView,
    outcome: db::Outcome,
) -> turn::TurnView {
    asking(
        c,
        s,
        history_actions(c, "#"@, outcome),
        Phase::ChannelHistory,
        DbCall::RoomHistory { room: Room::Channel, username: c.name },
    )
}

pub(crate) fn take_group_history(
    client: &mut Client,
    state: &AppState,
    outcome: Result<Answer, String>,
) -> (r: Turn)
    ensures
        turn::turned(final(client)@, state@, r) == group_history_turn(
            old(client)@,
            state@,
            db::outcome_of(outcome),
        ),
{
    let actions = replay(client, "#", &outcome);
    let call = DbCall::RoomHistory { room: Room::Channel, username: client.name.clone() };
    ask(client, state, actions, Phase::ChannelHistory, call)
}

/// The messages to channels from before go to the client, which may then speak.
pub open spec fn channel_history_turn(
    c: turn::ClientView,
    s: state::AppStateView,
    outcome: db::Outcome,
) -> turn::TurnView {
    reading(c, s, history_actions(c, "&"@, outcome))
}

pub(crate) fn take_channel_history(
    client: &mut Client,
    state: &AppState,
    outcome: Result<Answer, String>,
) -> (r: Turn)
    ensures
        turn::turned(final(client)@, state@, r) == channel_history_turn(
            old(client)@,
            state@,
            db::outcome_of(outcome),
        ),
{
    let actions = replay(client, "&", &outcome);
    read_on(client, state, actions)
}

} // verus!
