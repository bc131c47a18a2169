//! What holds of the server as a whole.

pub mod entry;
pub mod requests;
pub mod speech;

use crate::client;
use crate::crypto;
use crate::crypto::IncomingView;
use crate::db;
use crate::db::{DbCall, DbValue, Room};
use crate::notice::NotificationView;
use crate::posting;
use crate::signin;
use crate::state;
use crate::text;
use crate::turn;
use crate::turn::{Action, Next, Phase, Post};
use crate::wire;
use vstd::prelude::*;

verus! {

/// Behind each event the client waits for what comes next: for its next message, for
/// an answer of the sort that the database is asked for, or for nothing.
pub proof fn law_next(c: turn::ClientView, s: state::AppStateView, event: turn::EventView)
    requires
        turn::takes(c, event),
    ensures
        match client::step_of(c, s, event).next {
            Next::Read => client::step_of(c, s, event).client.phase is Ready,
            Next::Ask(call) => turn::awaits(client::step_of(c, s, event).client.phase) == Some(
                db::call_kind(call),
            ),
            Next::Stop => client::step_of(c, s, event).client.phase is Closed,
        },
{
}

/// Whether the user of a client in this phase is not known yet.
pub open spec fn before_sign_in(phase: turn::PhaseView) -> bool {
    ||| phase is Auth
    ||| phase is Token
    ||| phase is Login
    ||| phase is LoginName
    ||| phase is Register
    ||| phase is NewSession
    ||| phase is PushToken
}

/// Whether a client that takes messages has a user.
pub open spec fn sound(c: turn::ClientView) -> bool {
    before_sign_in(c.phase) || c.phase is Closed || {
        &&& c.session.user_id is Some
        &&& c.session.username is Some
        &&& c.session.token is Some
    }
}

/// Messages are taken from nobody whose user is not known, from the first moment on.
pub proof fn law_sign_in_first(
    c: turn::ClientView,
    s: state::AppStateView,
    event: turn::EventView,
    conn: u64,
    temp_id: Seq<char>,
    keys: crypto::SessionKeys,
    now: u64,
)
    requires
        sound(c),
        turn::takes(c, event),
    ensures
        sound(client::new_client(conn, temp_id, keys, now)),
        sound(client::step_of(c, s, event).client),
        event is Frame ==> c.phase is Auth || (c.session.user_id is Some
            && c.session.username is Some && c.session.token is Some),
{
}

/// Whether the database has just said that what it was asked for is done or found.
pub open spec fn granted(event: turn::EventView) -> bool {
    match event {
        turn::EventView::Db(outcome) => outcome is Ok,
        _ => false,
    }
}

/// Nobody is let in whom the database has not confirmed: a token has been found, or a
/// session has been opened for a user whose password was right or who has just been
/// registered.
pub proof fn law_admission(c: turn::ClientView, s: state::AppStateView, event: turn::EventView)
    requires
        turn::takes(c, event),
    ensures
        ({
            let t = client::step_of(c, s, event).client.phase;
            &&& (before_sign_in(c.phase) && !before_sign_in(t) && !(t is Closed)) ==> c.phase
                is PushToken || (granted(event) && (c.phase is Token || c.phase is NewSession))
            &&& t is PushToken ==> granted(event) && (c.phase is Token || c.phase is NewSession)
            &&& t is NewSession ==> c.phase is LoginName || (granted(event) && c.phase is Register)
            &&& t is LoginName ==> granted(event) && c.phase is Login
            &&& t is Token || t is Login || t is Register ==> c.phase is Auth
        }),
{
}

/// How many answers of the database a client waits for at most, but for the users
/// that a message has still to go round to.
pub open spec fn answers_left(phase: turn::PhaseView) -> nat {
    match phase {
        Phase::Login { .. } => 7,
        Phase::LoginName { .. } => 6,
        Phase::Register { .. } => 6,
        Phase::Token { .. } => 5,
        Phase::NewSession { .. } => 5,
        Phase::PushToken { .. } => 4,
        Phase::PrivateHistory => 3,
        Phase::GroupHistory => 2,
        Phase::ChannelHistory => 1,
        Phase::Command { .. } => 1,
        Phase::PrivateCheck { .. } => 3,
        Phase::PrivateStore { .. } => 2,
        Phase::PrivatePush { .. } => 1,
        Phase::RoomCheck { .. } => 5,
        Phase::ChannelOwner { .. } => 4,
        Phase::RoomStore { .. } => 3,
        Phase::RoomMembers { .. } => 2,
        Phase::RoomPush { .. } => 1,
        _ => 0,
    }
}

/// How many users a message has still to go round to.
pub open spec fn users_left(phase: turn::PhaseView) -> nat {
    match phase {
        Phase::RoomPush { rest, .. } => rest.len(),
        _ => 0,
    }
}

/// Each answer of the database brings the client closer to its next message, so that
/// it does not wait for answers for ever.
pub proof fn law_reads_again(c: turn::ClientView, s: state::AppStateView, outcome: db::Outcome)
    requires
        turn::takes(c, turn::EventView::Db(outcome)),
    ensures
        ({
            let t = client::db_turn(c, s, outcome).client.phase;
            answers_left(t) < answers_left(c.phase) || (answers_left(t) == answers_left(c.phase)
                && users_left(t) < users_left(c.phase))
        }),
{
    match c.phase {
        Phase::RoomMembers { room, post } => {
            law_round(c.name, s, room, post, posting::names(outcome));
        },
        Phase::RoomPush { room, post, rest } => {
            law_round(c.name, s, room, post, rest);
        },
        _ => {},
    }
}

/// Whether an action is a message of the server to the client itself.
pub open spec fn is_said(action: turn::DeedView) -> bool {
    action is System
}

/// Whoever is not let in changes nothing of who is connected, and nobody else hears
/// of it.
pub proof fn law_not_let_in(c: turn::ClientView, s: state::AppStateView, event: turn::EventView)
    requires
        before_sign_in(c.phase),
        turn::takes(c, event),
        before_sign_in(client::step_of(c, s, event).client.phase) || client::step_of(
            c,
            s,
            event,
        ).client.phase is Closed,
    ensures
        client::step_of(c, s, event).state == s,
        forall|i: int|
            0 <= i < client::step_of(c, s, event).actions.len() ==> is_said(
                #[trigger] client::step_of(c, s, event).actions[i],
            ),
{
}

/// Whether the user of a client in this phase is past the history.
pub open spec fn speaks(phase: turn::PhaseView) -> bool {
    !before_sign_in(phase) && !(phase is PrivateHistory) && !(phase is GroupHistory) && !(
    phase is ChannelHistory)
}

/// Whether an action that carries a user's message carries this user's.
pub open spec fn is_from(action: turn::DeedView, sender: Seq<char>) -> bool {
    action matches Action::Encrypted { sender: from, .. } ==> from == sender
}

proof fn lemma_round_sender(
    sender: Seq<char>,
    s: state::AppStateView,
    room: Room,
    post: Post<Seq<char>, Seq<u8>>,
    rest: Seq<Seq<char>>,
)
    ensures
        forall|i: int|
            0 <= i < posting::round(sender, s, room, post, rest).0.len() ==> is_from(
                #[trigger] posting::round(sender, s, room, post, rest).0[i],
                sender,
            ),
    decreases rest.len(),
{
    if rest.len() > 0 {
        lemma_round_sender(sender, s, room, post, rest.skip(1));
        let all = posting::round(sender, s, room, post, rest).0;
        let later = posting::round(sender, s, room, post, rest.skip(1)).0;
        if rest[0] != sender && s.online.contains_key(rest[0]) {
            let label = posting::room_label(room, post.recipient);
            let now = posting::deliveries(sender, s.devices_of(rest[0]), label, post);
            assert forall|i: int| 0 <= i < all.len() implies is_from(#[trigger] all[i], sender) by {
                if i < now.len() {
                    assert(all[i] == now[i]);
                } else {
                    assert(all[i] == later[i - now.len()]);
                }
            }
        }
    }
}

/// A user speaks under the name of the sign-in, whatever name a message states: what
/// goes to others and what is stored has that name.
pub proof fn law_own_name(c: turn::ClientView, s: state::AppStateView, event: turn::EventView)
    requires
        speaks(c.phase),
        turn::takes(c, event),
    ensures
        forall|i: int|
            0 <= i < client::step_of(c, s, event).actions.len() ==> is_from(
                #[trigger] client::step_of(c, s, event).actions[i],
                c.name,
            ),
        match client::step_of(c, s, event).next {
            Next::Ask(DbCall::StoreMessage { sender, .. }) => sender == c.name,
            Next::Ask(DbCall::StoreRoomMessage { sender, .. }) => sender == c.name,
            _ => true,
        },
        client::step_of(c, s, event).client.name == c.name,
{
    match c.phase {
        Phase::RoomMembers { room, post } => {
            if let turn::EventView::Db(outcome) = event {
                lemma_round_sender(c.name, s, room, post, posting::names(outcome));
            }
        },
        Phase::RoomPush { room, post, rest } => {
            lemma_round_sender(c.name, s, room, post, rest);
        },
        _ => {},
    }
}

/// The name of the sender that a message states makes no difference.
pub proof fn law_stated_sender_ignored(
    c: turn::ClientView,
    s: state::AppStateView,
    a: Seq<u8>,
    b: Seq<u8>,
    clock: i64,
)
    requires
        a.len() > 0 && a[0] == wire::MSG_TYPE_USER,
        b.len() > 0 && b[0] == wire::MSG_TYPE_USER,
        wire::user_frame_parts(a.skip(1)) == (wire::UserFrameView {
            sender: wire::user_frame_parts(a.skip(1)).sender,
            ..wire::user_frame_parts(b.skip(1))
        }),
    ensures
        client::data_turn(c, s, a, clock) == client::data_turn(c, s, b, clock),
{
}

/// A message that reaches the server as the client has encrypted it is handled with
/// the recipient, the bytes and the time that the client gave it.
pub proof fn law_message_arrives(
    c: turn::ClientView,
    s: state::AppStateView,
    frame: Seq<u8>,
    sender: Seq<char>,
    recipient: Seq<char>,
    plaintext: Seq<u8>,
    timestamp: i64,
    clock: i64,
)
    requires
        crypto::frame_carries(
            frame,
            c.session.keys.key@,
            sender,
            recipient,
            plaintext,
            timestamp as int,
        ),
    ensures
        turn::frame_complete(frame),
        client::data_turn(c, s, frame, clock) == posting::post_turn(
            c,
            s,
            recipient,
            plaintext,
            text::utf8_lossy(plaintext),
            timestamp,
        ),
{
}

/// A private message to a user who exists is stored under the sender's name, goes
/// back to the sender, and goes to each connection that the user has by then, under
/// the key of that connection, with the bytes and the time that it came with. `first`
/// is who is connected when it arrives, `then` when it has been stored.
pub proof fn law_private_message(
    c: turn::ClientView,
    first: state::AppStateView,
    then: state::AppStateView,
    recipient: Seq<char>,
    plaintext: Seq<u8>,
    content: Seq<char>,
    timestamp: i64,
    stored: db::Outcome,
)
    requires
        !text::begins_with(content, '/'),
        !text::begins_with(recipient, '#'),
        !text::begins_with(recipient, '&'),
    ensures
        ({
            let arrived = posting::post_turn(c, first, recipient, plaintext, content, timestamp);
            let checked = client::db_turn(arrived.client, first, Ok(DbValue::Flag(true)));
            let sent = client::db_turn(checked.client, then, stored);
            let peers = then.devices_of(recipient);
            &&& arrived.next == Next::Ask(DbCall::UserExists { username: recipient })
            &&& checked.next == Next::Ask(
                DbCall::StoreMessage { sender: c.name, recipient, content, timestamp },
            )
            &&& sent.actions.len() == 1 + peers.len()
            &&& sent.actions[0] == turn::DeedView::Encrypted {
                conn: c.conn,
                keys: c.session.keys,
                sender: c.name,
                recipient,
                plaintext,
                timestamp,
            }
            &&& forall|i: int|
                0 <= i < peers.len() ==> #[trigger] sent.actions[1 + i] == turn::DeedView::Encrypted {
                    conn: peers[i].conn,
                    keys: peers[i].keys,
                    sender: c.name,
                    recipient,
                    plaintext,
                    timestamp,
                }
            &&& sent.next == Next::Ask(DbCall::GetFcmTokens { username: recipient })
        }),
{
}

/// A private message to a user who does not exist is neither stored nor sent.
pub proof fn law_unknown_recipient(
    c: turn::ClientView,
    s: state::AppStateView,
    post: Post<Seq<char>, Seq<u8>>,
    outcome: db::Outcome,
)
    requires
        c.phase == (turn::PhaseView::PrivateCheck { post }),
        !posting::yes(outcome),
    ensures
        client::db_turn(c, s, outcome).next is Read,
        client::db_turn(c, s, outcome).actions == seq![
            signin::said("[Система] Пользователь "@ + post.recipient + " не найден"@),
        ],
{
}

/// Whether the database has just said yes.
pub open spec fn confirmed(event: turn::EventView) -> bool {
    match event {
        turn::EventView::Db(outcome) => posting::yes(outcome),
        _ => false,
    }
}

/// Whether the client waits to hear whether its user may write to the room: is the
/// user in the group, or does the channel belong to the user?
pub open spec fn waits_for_access(c: turn::ClientView, room: Room, name: Seq<char>) -> bool {
    match (room, c.phase) {
        (Room::Group, Phase::RoomCheck { room: asked, post }) => asked == Room::Group
            && post.recipient == name,
        (Room::Channel, Phase::ChannelOwner { post }) => post.recipient == name,
        _ => false,
    }
}

/// Whether the client waits to hear whether its user is subscribed to the channel.
pub open spec fn waits_for_subscription(c: turn::ClientView, name: Seq<char>) -> bool {
    match c.phase {
        Phase::RoomCheck { room, post } => room == Room::Channel && post.recipient == name,
        _ => false,
    }
}

/// Only who is in a group writes to it, and only the owner of a channel, who is
/// subscribed to it, writes to that: a message to a room is stored only where the
/// database has just confirmed it, having been asked about this user and this room.
pub proof fn law_room_access(c: turn::ClientView, s: state::AppStateView, event: turn::EventView)
    requires
        turn::takes(c, event),
    ensures
        ({
            let t = client::step_of(c, s, event);
            &&& t.next matches Next::Ask(DbCall::StoreRoomMessage { room, name, .. })
                ==> confirmed(event) && waits_for_access(c, room, name)
            &&& t.client.phase matches Phase::ChannelOwner { post } ==> {
                &&& confirmed(event)
                &&& waits_for_subscription(c, post.recipient)
                &&& t.next == Next::Ask(
                    DbCall::IsChannelOwner { name: post.recipient, username: c.name },
                )
            }
            &&& t.client.phase matches Phase::RoomCheck { room, post } ==> t.next == Next::Ask(
                DbCall::IsMember { room, name: post.recipient, username: c.name },
            )
        }),
{
}

/// Whether the message has gone to each connection of the user, under the key of that
/// connection.
pub open spec fn reached(
    actions: Seq<turn::DeedView>,
    sender: Seq<char>,
    s: state::AppStateView,
    member: Seq<char>,
    label: Seq<char>,
    post: Post<Seq<char>, Seq<u8>>,
) -> bool {
    forall|j: int|
        0 <= j < s.devices_of(member).len() ==> actions.contains(
            posting::delivery(
                sender,
                (#[trigger] s.devices_of(member)[j]).conn,
                s.devices_of(member)[j].keys,
                label,
                post,
            ),
        )
}

/// How many users of a room a round gets past before the first who is not connected.
pub open spec fn passed(
    sender: Seq<char>,
    s: state::AppStateView,
    room: Room,
    post: Post<Seq<char>, Seq<u8>>,
    rest: Seq<Seq<char>>,
) -> int {
    match posting::round(sender, s, room, post, rest).1 {
        Some((_, left)) => rest.len() - left.len() - 1,
        None => rest.len() as int,
    }
}

/// A message to a room reaches every connection of everybody in it who is connected,
/// but for the sender. It stops only for a user who is not connected, in order to
/// notify that user, and then goes on with who comes behind.
pub proof fn law_round(
    sender: Seq<char>,
    s: state::AppStateView,
    room: Room,
    post: Post<Seq<char>, Seq<u8>>,
    rest: Seq<Seq<char>>,
)
    ensures
        0 <= passed(sender, s, room, post, rest) <= rest.len(),
        forall|i: int|
            0 <= i < passed(sender, s, room, post, rest) && rest[i] != sender
                ==> s.online.contains_key(#[trigger] rest[i]) && reached(
                posting::round(sender, s, room, post, rest).0,
                sender,
                s,
                rest[i],
                posting::room_label(room, post.recipient),
                post,
            ),
        posting::round(sender, s, room, post, rest).1 matches Some((member, left)) ==> {
            &&& passed(sender, s, room, post, rest) < rest.len()
            &&& member == rest[passed(sender, s, room, post, rest)]
            &&& left == rest.skip(passed(sender, s, room, post, rest) + 1)
            &&& member != sender
            &&& !s.online.contains_key(member)
        },
    decreases rest.len(),
{
    if rest.len() > 0 {
        let tail = rest.skip(1);
        law_round(sender, s, room, post, tail);
        let n = passed(sender, s, room, post, rest);
        let m = passed(sender, s, room, post, tail);
        let all = posting::round(sender, s, room, post, rest).0;
        let later = posting::round(sender, s, room, post, tail).0;
        let label = posting::room_label(room, post.recipient);
        if rest[0] == sender || s.online.contains_key(rest[0]) {
            let now = if rest[0] == sender {
                Seq::<turn::DeedView>::empty()
            } else {
                posting::deliveries(sender, s.devices_of(rest[0]), label, post)
            };
            assert(all =~= now + later);
            assert(n == m + 1);
            assert forall|i: int| 0 <= i < n && rest[i] != sender implies s.online.contains_key(
                #[trigger] rest[i],
            ) && reached(all, sender, s, rest[i], label, post) by {
                if i == 0 {
                    assert forall|j: int| 0 <= j < s.devices_of(rest[0]).len() implies all.contains(
                        posting::delivery(
                            sender,
                            (#[trigger] s.devices_of(rest[0])[j]).conn,
                            s.devices_of(rest[0])[j].keys,
                            label,
                            post,
                        ),
                    ) by {
                        assert(all[j] == now[j]);
                    }
                } else {
                    assert(tail[i - 1] == rest[i]);
                    assert forall|j: int| 0 <= j < s.devices_of(rest[i]).len() implies all.contains(
                        posting::delivery(
                            sender,
                            (#[trigger] s.devices_of(rest[i])[j]).conn,
                            s.devices_of(rest[i])[j].keys,
                            label,
                            post,
                        ),
                    ) by {
                        let d = posting::delivery(
                            sender,
                            s.devices_of(rest[i])[j].conn,
                            s.devices_of(rest[i])[j].keys,
                            label,
                            post,
                        );
                        assert(later.contains(d));
                        let k = later.index_of(d);
                        assert(all[now.len() + k] == d);
                    }
                }
            }
            if let Some((member, left)) = posting::round(sender, s, room, post, rest).1 {
                assert(tail.skip(m + 1) =~= rest.skip(n + 1));
            }
        }
    }
}

/// Everything that is done from a turn on until a message has gone all the way round
/// its room, where `answer` gives the push tokens of a user and nobody comes or goes
/// meanwhile.
pub open spec fn whole_round(
    t: turn::TurnView,
    s: state::AppStateView,
    answer: spec_fn(Seq<char>) -> db::Outcome,
) -> Seq<turn::DeedView>
    decreases answers_left(t.client.phase) + users_left(t.client.phase),
{
    match (t.client.phase, t.next) {
        (Phase::RoomPush { room, post, rest }, Next::Ask(DbCall::GetFcmTokens { username })) => {
            proof {
                law_round(t.client.name, s, room, post, rest);
            }
            t.actions + whole_round(client::db_turn(t.client, s, answer(username)), s, answer)
        },
        _ => t.actions,
    }
}

/// Whether each device of the user has been notified of the message.
pub open spec fn notified(
    actions: Seq<turn::DeedView>,
    tokens: Seq<Seq<char>>,
    note: NotificationView,
) -> bool {
    forall|j: int|
        0 <= j < tokens.len() ==> actions.contains(
            turn::DeedView::Push { token: #[trigger] tokens[j], note },
        )
}

/// Whether the message has got to the user: to each connection of a user who is
/// connected, and as a notification to each device of one who is not.
pub open spec fn got(
    actions: Seq<turn::DeedView>,
    sender: Seq<char>,
    s: state::AppStateView,
    member: Seq<char>,
    room: Room,
    post: Post<Seq<char>, Seq<u8>>,
    answer: spec_fn(Seq<char>) -> db::Outcome,
) -> bool {
    if s.online.contains_key(member) {
        reached(actions, sender, s, member, posting::room_label(room, post.recipient), post)
    } else {
        notified(
            actions,
            posting::names(answer(member)),
            posting::note_of(sender, Some(room), post),
        )
    }
}

proof fn lemma_got_more(
    before: Seq<turn::DeedView>,
    actions: Seq<turn::DeedView>,
    after: Seq<turn::DeedView>,
    sender: Seq<char>,
    s: state::AppStateView,
    member: Seq<char>,
    room: Room,
    post: Post<Seq<char>, Seq<u8>>,
    answer: spec_fn(Seq<char>) -> db::Outcome,
)
    requires
        got(actions, sender, s, member, room, post, answer),
    ensures
        got(before + actions + after, sender, s, member, room, post, answer),
{
    let all = before + actions + after;
    assert forall|a: turn::DeedView| actions.contains(a) implies #[trigger] all.contains(a) by {
        let k = actions.index_of(a);
        assert(all[before.len() + k] == a);
    }
}

proof fn lemma_whole_round(
    c: turn::ClientView,
    s: state::AppStateView,
    before: Seq<turn::DeedView>,
    room: Room,
    post: Post<Seq<char>, Seq<u8>>,
    rest: Seq<Seq<char>>,
    answer: spec_fn(Seq<char>) -> db::Outcome,
)
    ensures
        ({
            let all = whole_round(
                posting::round_turn(c, s, before, room, post, rest),
                s,
                answer,
            );
            &&& before.is_prefix_of(all)
            &&& forall|i: int|
                0 <= i < rest.len() && rest[i] != c.name ==> got(
                    all,
                    c.name,
                    s,
                    #[trigger] rest[i],
                    room,
                    post,
                    answer,
                )
        }),
    decreases rest.len(),
{
    let t = posting::round_turn(c, s, before, room, post, rest);
    let all = whole_round(t, s, answer);
    let (now, left) = posting::round(c.name, s, room, post, rest);
    let n = passed(c.name, s, room, post, rest);
    let none = Seq::<turn::DeedView>::empty();
    law_round(c.name, s, room, post, rest);
    match left {
        None => {
            assert(all =~= before + now);
            assert forall|i: int| 0 <= i < rest.len() && rest[i] != c.name implies got(
                all,
                c.name,
                s,
                #[trigger] rest[i],
                room,
                post,
                answer,
            ) by {
                lemma_got_more(before, now, none, c.name, s, rest[i], room, post, answer);
                assert(before + now + none =~= all);
            }
        },
        Some((member, tail)) => {
            let k = t.client;
            let tokens = posting::names(answer(member));
            let note = posting::note_of(c.name, Some(room), post);
            let pushes = posting::pushes(tokens, note);
            let later = whole_round(
                posting::round_turn(k, s, pushes, room, post, tail),
                s,
                answer,
            );
            lemma_whole_round(k, s, pushes, room, post, tail, answer);
            assert(client::db_turn(k, s, answer(member)) == posting::round_turn(
                k,
                s,
                pushes,
                room,
                post,
                tail,
            ));
            assert(all =~= before + now + later);
            assert forall|i: int| 0 <= i < rest.len() && rest[i] != c.name implies got(
                all,
                c.name,
                s,
                #[trigger] rest[i],
                room,
                post,
                answer,
            ) by {
                if i < n {
                    lemma_got_more(before, now, later, c.name, s, rest[i], room, post, answer);
                } else {
                    if i == n {
                        assert forall|j: int| 0 <= j < tokens.len() implies later.contains(
                            turn::DeedView::Push { token: #[trigger] tokens[j], note },
                        ) by {
                            assert(later[j] == pushes[j]);
                        }
                    } else {
                        assert(tail[i - n - 1] == rest[i]);
                    }
                    lemma_got_more(before + now, later, none, c.name, s, rest[i], room, post, answer);
                    assert(before + now + later + none =~= all);
                }
            }
        },
    }
}

/// A message to a room gets to everybody in it, but for the sender, to whom it goes
/// back first: to each connection of who is connected, and as a notification to each
/// device of who is not.
pub proof fn law_room_message(
    c: turn::ClientView,
    s: state::AppStateView,
    room: Room,
    post: Post<Seq<char>, Seq<u8>>,
    members: Seq<Seq<char>>,
    answer: spec_fn(Seq<char>) -> db::Outcome,
)
    requires
        c.phase == (turn::PhaseView::RoomMembers { room, post }),
    ensures
        ({
            let all = whole_round(
                client::db_turn(c, s, Ok(DbValue::Names(members))),
                s,
                answer,
            );
            &&& all.len() > 0
            &&& all[0] == posting::echo(c, posting::room_label(room, post.recipient), post)
            &&& forall|i: int|
                0 <= i < members.len() && members[i] != c.name ==> got(
                    all,
                    c.name,
                    s,
                    #[trigger] members[i],
                    room,
                    post,
                    answer,
                )
        }),
{
    let before = seq![posting::echo(c, posting::room_label(room, post.recipient), post)];
    lemma_whole_round(c, s, before, room, post, members, answer);
    assert(before[0] == posting::echo(c, posting::room_label(room, post.recipient), post));
}

/// In a room only who is not connected is notified, and never the sender.
pub proof fn law_room_notifications(
    c: turn::ClientView,
    s: state::AppStateView,
    event: turn::EventView,
)
    requires
        turn::takes(c, event),
        client::step_of(c, s, event).client.phase is RoomPush,
    ensures
        client::step_of(c, s, event).next matches Next::Ask(DbCall::GetFcmTokens { username })
            && username != c.name && !s.online.contains_key(username),
{
    match c.phase {
        Phase::RoomMembers { room, post } => {
            if let turn::EventView::Db(outcome) = event {
                law_round(c.name, s, room, post, posting::names(outcome));
            }
        },
        Phase::RoomPush { room, post, rest } => {
            law_round(c.name, s, room, post, rest);
        },
        _ => {},
    }
}

/// A message over the limit is answered and not looked at: whatever it holds, nothing
/// else comes of it.
pub proof fn law_over_the_limit(
    c: turn::ClientView,
    s: state::AppStateView,
    data: Seq<u8>,
    now: u64,
    clock: i64,
)
    requires
        c.phase is Ready,
        data.len() > 0,
        !c.session.admits(now),
    ensures
        ({
            let t = client::step_of(
                c,
                s,
                turn::EventView::Frame { incoming: IncomingView::Binary(data), now, clock },
            );
            &&& t.state == s
            &&& t.next is Read
            &&& t.actions == seq![
                signin::said("[Система] Слишком много сообщений, подождите"@),
            ]
            &&& t.client == client::counted(c, now)
        }),
{
}

/// A client changes who is listed as connected for its own user alone: for the user
/// who is signing in, and for the user whom the session names when it ends.
pub proof fn law_others_stay_connected(
    c: turn::ClientView,
    s: state::AppStateView,
    event: turn::EventView,
    other: Seq<char>,
)
    requires
        turn::takes(c, event),
        c.session.username != Some(other),
        client::step_of(c, s, event).client.session.username != Some(other),
        other.len() > 0,
    ensures
        client::step_of(c, s, event).state.tokens_of(other) == s.tokens_of(other),
{
}

/// Nobody is ever listed as connected without a token being listed. The session of a
/// token may have ended: it stays listed where the user's name has changed since.
pub proof fn law_devices(c: turn::ClientView, s: state::AppStateView, event: turn::EventView)
    requires
        turn::takes(c, event),
        s.wf(),
    ensures
        client::step_of(c, s, event).state.wf(),
{
}

/// Once its connection has ended, a session is no longer known under its token.
pub proof fn law_ended(
    c: turn::ClientView,
    s: state::AppStateView,
    incoming: IncomingView,
    now: u64,
    clock: i64,
    token: Seq<char>,
)
    requires
        c.phase is Ready,
        incoming is Failed || incoming is End,
        c.session.token == Some(token),
        token.len() > 0,
    ensures
        !client::step_of(
            c,
            s,
            turn::EventView::Frame { incoming, now, clock },
        ).state.sessions.contains_key(token),
        client::step_of(c, s, turn::EventView::Frame { incoming, now, clock }).next is Stop,
{
}

} // verus!
