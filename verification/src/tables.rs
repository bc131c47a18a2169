//! Operations one after the other on tables that do what the statements say.
//!
//! The database is outside. Each law here takes it as a function from the tables and a
//! request to the tables and the reply, and says of it what the law rests on.

use crate::db;
use crate::db::{DbCall, DbOp, DbValue, Room, RoomAction};
use crate::identity;
use crate::progress;
use crate::sql;
use crate::sql::Cell;
use crate::statements;
use crate::store;
use vstd::prelude::*;

verus! {

/// What the database does with a request.
pub type Database<D> = spec_fn(D, sql::DbRequestView) -> (D, sql::DbReplyView);

/// The tables and where the operation has got, after so many requests at most.
pub open spec fn run<D>(
    database: Database<D>,
    step: db::StepView,
    tables: D,
    requests: nat,
) -> (D, db::StepView)
    decreases requests,
{
    match step {
        db::StepView::Ask(task) => if requests == 0 {
            (tables, step)
        } else {
            let (after, reply) = database(tables, task.request);
            run(
                database,
                progress::resumed(task.op, reply),
                after,
                (requests - 1) as nat,
            )
        },
        db::StepView::Done(_) => (tables, step),
    }
}

/// The tables and what comes of an operation that makes no identifier. Those here send
/// three requests at most.
pub open spec fn operate<D>(database: Database<D>, call: DbCall<Seq<char>>, tables: D) -> (
    D,
    db::StepView,
) {
    run(database, db::StepView::Ask(store::plain_task(call)), tables, 3)
}

/// A reply with one row, or with none.
pub open spec fn found(row: Option<Seq<Cell<Seq<char>>>>) -> sql::DbReplyView {
    sql::DbReplyView::Rows {
        rows: match row {
            Some(row) => seq![row],
            None => Seq::empty(),
        },
        broken: None,
    }
}

/// As what a user is in a group. In a channel there are members alone.
pub enum Role {
    Owner,
    Member,
}

/// The groups, or the channels: the identifier of each name, and who is in which, and as
/// what.
#[verifier::ext_equal]
pub struct Rooms {
    pub ids: Map<Seq<char>, Seq<char>>,
    pub members: Map<(Seq<char>, Seq<char>), Role>,
}

/// Whether the database looks rooms up by their names, and adds and deletes the user
/// and the room that it is given and nobody else.
pub open spec fn keeps_rooms(database: Database<Rooms>, room: Room) -> bool {
    &&& forall|t: Rooms, name: Seq<char>, action: RoomAction<Seq<char>>|
        database(t, (#[trigger] store::find_room_of(room, name, action)).request)
            == #[trigger] looked_up(t, name)
    &&& forall|t: Rooms, id: Seq<char>, username: Seq<char>|
        #![trigger with_member(t, id, username)]
        is_room(t, id) ==> database(
            t,
            progress::room_statement(room, id, RoomAction::Join { username }).request,
        ) == (with_member(t, id, username), sql::DbReplyView::Done)
    &&& forall|t: Rooms, id: Seq<char>, username: Seq<char>|
        #![trigger without_member(t, id, username)]
        database(
            t,
            progress::room_statement(room, id, RoomAction::Leave { username }).request,
        ) == (without_member(t, id, username), sql::DbReplyView::Done)
}

/// A look-up of a room changes nothing and gives its identifier.
pub open spec fn looked_up(t: Rooms, name: Seq<char>) -> (Rooms, sql::DbReplyView) {
    (
        t,
        found(
            if t.ids.contains_key(name) {
                Some(seq![Cell::Text(t.ids[name])])
            } else {
                None
            },
        ),
    )
}

/// Whether a room has the identifier.
pub open spec fn is_room(t: Rooms, id: Seq<char>) -> bool {
    exists|name: Seq<char>| #[trigger] t.ids.contains_key(name) && t.ids[name] == id
}

/// With the user in the room. Who is in it already stays as what they are.
pub open spec fn with_member(t: Rooms, id: Seq<char>, username: Seq<char>) -> Rooms {
    if t.members.contains_key((id, username)) {
        t
    } else {
        Rooms { members: t.members.insert((id, username), Role::Member), ..t }
    }
}

/// Without the user in the room.
pub open spec fn without_member(t: Rooms, id: Seq<char>, username: Seq<char>) -> Rooms {
    Rooms { members: t.members.remove((id, username)), ..t }
}

/// Joining a room puts the user into it and changes nothing else. Where there is no
/// such room it is refused and changes nothing.
pub proof fn law_join(
    database: Database<Rooms>,
    room: Room,
    t: Rooms,
    name: Seq<char>,
    username: Seq<char>,
)
    requires
        keeps_rooms(database, room),
    ensures
        operate(database, DbCall::JoinRoom { room, name, username }, t) == (
            if t.ids.contains_key(name) {
                (with_member(t, t.ids[name], username), progress::done(DbValue::Unit))
            } else {
                (t, progress::failed(statements::room_texts_of(room).not_found))
            }
        ),
{
    reveal_with_fuel(run, 4);
    let action = RoomAction::Join { username };
    let task = store::find_room_of(room, name, action);
    assert(store::plain_task(DbCall::JoinRoom { room, name, username }) == task);
    assert(database(t, task.request) == looked_up(t, name));
    if t.ids.contains_key(name) {
        let next = progress::room_statement(room, t.ids[name], action);
        assert(progress::resumed(task.op, looked_up(t, name).1) == db::StepView::Ask(next));
        assert(database(t, next.request) == (
            with_member(t, t.ids[name], username),
            sql::DbReplyView::Done,
        ));
    }
}

/// Leaving a room takes the user out of it and changes nothing else. Where there is no
/// such room it is refused and changes nothing.
pub proof fn law_leave(
    database: Database<Rooms>,
    room: Room,
    t: Rooms,
    name: Seq<char>,
    username: Seq<char>,
)
    requires
        keeps_rooms(database, room),
    ensures
        operate(database, DbCall::LeaveRoom { room, name, username }, t) == (
            if t.ids.contains_key(name) {
                (without_member(t, t.ids[name], username), progress::done(DbValue::Unit))
            } else {
                (t, progress::failed(statements::room_texts_of(room).not_found))
            }
        ),
{
    reveal_with_fuel(run, 4);
    let action = RoomAction::Leave { username };
    let task = store::find_room_of(room, name, action);
    assert(store::plain_task(DbCall::LeaveRoom { room, name, username }) == task);
    assert(database(t, task.request) == looked_up(t, name));
    if t.ids.contains_key(name) {
        let next = progress::room_statement(room, t.ids[name], action);
        assert(progress::resumed(task.op, looked_up(t, name).1) == db::StepView::Ask(next));
        assert(database(t, next.request) == (
            without_member(t, t.ids[name], username),
            sql::DbReplyView::Done,
        ));
    }
}

/// Joining a room once more, and leaving it once more, succeeds or fails as before and
/// changes nothing.
pub proof fn law_join_or_leave_again(
    database: Database<Rooms>,
    room: Room,
    t: Rooms,
    name: Seq<char>,
    username: Seq<char>,
)
    requires
        keeps_rooms(database, room),
    ensures
        ({
            let join = DbCall::JoinRoom { room, name, username };
            let once = operate(database, join, t);
            operate(database, join, once.0) == once
        }),
        ({
            let leave = DbCall::LeaveRoom { room, name, username };
            let once = operate(database, leave, t);
            operate(database, leave, once.0) == once
        }),
{
    law_join(database, room, t, name, username);
    law_leave(database, room, t, name, username);
    let joined = operate(database, DbCall::JoinRoom { room, name, username }, t).0;
    let left = operate(database, DbCall::LeaveRoom { room, name, username }, t).0;
    law_join(database, room, joined, name, username);
    law_leave(database, room, left, name, username);
    if t.ids.contains_key(name) {
        let id = t.ids[name];
        assert(with_member(joined, id, username) =~= joined);
        assert(without_member(left, id, username) =~= left);
    }
}

/// Leaving a room undoes joining it: who is in which room is as it was before.
pub proof fn law_join_then_leave(
    database: Database<Rooms>,
    room: Room,
    t: Rooms,
    name: Seq<char>,
    username: Seq<char>,
)
    requires
        keeps_rooms(database, room),
        t.ids.contains_key(name),
        !t.members.contains_key((t.ids[name], username)),
    ensures
        operate(
            database,
            DbCall::LeaveRoom { room, name, username },
            operate(database, DbCall::JoinRoom { room, name, username }, t).0,
        ) == (t, progress::done(DbValue::Unit)),
{
    law_join(database, room, t, name, username);
    let joined = with_member(t, t.ids[name], username);
    law_leave(database, room, joined, name, username);
    assert(without_member(joined, t.ids[name], username) =~= t);
}

/// Whoever is in a room and joins it stays what they are: the owner stays the owner.
pub proof fn law_join_keeps_role(
    database: Database<Rooms>,
    room: Room,
    t: Rooms,
    name: Seq<char>,
    username: Seq<char>,
)
    requires
        keeps_rooms(database, room),
        t.ids.contains_key(name),
        t.members.contains_key((t.ids[name], username)),
    ensures
        operate(database, DbCall::JoinRoom { room, name, username }, t) == (
            t,
            progress::done(DbValue::Unit),
        ),
{
    law_join(database, room, t, name, username);
}

/// A user.
pub struct User {
    pub id: Seq<char>,
    pub username: Seq<char>,
    pub password_hash: Seq<char>,
}

/// The users by their phone numbers, and whose session each token stands for.
#[verifier::ext_equal]
pub struct Accounts {
    pub users: Map<Seq<char>, User>,
    pub sessions: Map<Seq<char>, Seq<char>>,
}

/// Whether a user has the name.
pub open spec fn is_taken(t: Accounts, username: Seq<char>) -> bool {
    exists|phone: Seq<char>| #[trigger]
        t.users.contains_key(phone) && t.users[phone].username == username
}

/// Whether a user has the identifier.
pub open spec fn is_user(t: Accounts, id: Seq<char>) -> bool {
    exists|phone: Seq<char>| #[trigger]
        t.users.contains_key(phone) && t.users[phone].id == id
}

/// With another name of the user who has the old one.
pub open spec fn with_name(
    t: Accounts,
    old_username: Seq<char>,
    new_username: Seq<char>,
) -> Accounts {
    Accounts {
        users: Map::new(
            |phone: Seq<char>| t.users.contains_key(phone),
            |phone: Seq<char>|
                if t.users[phone].username == old_username {
                    User { username: new_username, ..t.users[phone] }
                } else {
                    t.users[phone]
                },
        ),
        ..t
    }
}

/// The request for an operation that has one alone, or starts with it.
pub open spec fn request_of(call: DbCall<Seq<char>>) -> sql::DbRequestView {
    store::plain_task(call).request
}

/// The row of the user whose phone number this is.
pub open spec fn password_row(t: Accounts, phone: Seq<char>) -> sql::DbReplyView {
    found(
        if t.users.contains_key(phone) {
            Some(
                seq![Cell::Text(t.users[phone].id), Cell::Text(t.users[phone].password_hash)],
            )
        } else {
            None
        },
    )
}

/// Without the session of the token.
pub open spec fn without_session(t: Accounts, token: Seq<char>) -> Accounts {
    Accounts { sessions: t.sessions.remove(token), ..t }
}

/// With a session of the user.
pub open spec fn with_session(t: Accounts, token: Seq<char>, user_id: Seq<char>) -> Accounts {
    Accounts { sessions: t.sessions.insert(token, user_id), ..t }
}

/// Whether no two users have the same identifier.
pub open spec fn unique_ids(t: Accounts) -> bool {
    forall|a: Seq<char>, b: Seq<char>|
        #[trigger] t.users.contains_key(a) && #[trigger] t.users.contains_key(b)
            && t.users[a].id == t.users[b].id ==> a == b
}

/// Whether the token stands for a session of the user with the phone number.
pub open spec fn is_session_of(t: Accounts, token: Seq<char>, phone: Seq<char>) -> bool {
    &&& t.sessions.contains_key(token)
    &&& t.users.contains_key(phone)
    &&& t.sessions[token] == t.users[phone].id
}

/// The request that marks a session as just used.
pub open spec fn touch_of(token: Seq<char>) -> sql::DbRequestView {
    sql::DbRequestView::Execute {
        sql: statements::TOUCH_SESSION@,
        params: seq![store::param(token)],
    }
}

/// The row of a session: the user's identifier and name.
pub open spec fn session_row(user: User) -> sql::DbReplyView {
    found(Some(seq![Cell::Text(user.id), Cell::Text(user.username)]))
}

/// With one more user.
pub open spec fn with_user(t: Accounts, phone: Seq<char>, user: User) -> Accounts {
    Accounts { users: t.users.insert(phone, user), ..t }
}

/// Whether the database puts a session in as given, where the user is known and the
/// token is new; finds by the token the user whose session it is, and nobody where there
/// is none; and deletes the session of the token that it is given.
pub open spec fn keeps_sessions(database: Database<Accounts>) -> bool {
    &&& forall|t: Accounts, token: Seq<char>, user_id: Seq<char>, device_name: Seq<char>|
        #![trigger database(t, store::session_of(token, user_id, device_name).request)]
        is_user(t, user_id) && !t.sessions.contains_key(token) ==> database(
            t,
            store::session_of(token, user_id, device_name).request,
        ) == (with_session(t, token, user_id), sql::DbReplyView::Done)
    &&& forall|t: Accounts, token: Seq<char>, phone: Seq<char>|
        unique_ids(t) && #[trigger] is_session_of(t, token, phone) ==> database(
            t,
            request_of(DbCall::CheckSession { token }),
        ) == (t, session_row(t.users[phone]))
    &&& forall|t: Accounts, token: Seq<char>|
        #![trigger database(t, touch_of(token))]
        database(t, touch_of(token)) == (t, sql::DbReplyView::Done)
    &&& forall|t: Accounts, token: Seq<char>|
        database(t, request_of(DbCall::DeleteSession { token })) == (
            #[trigger] without_session(t, token),
            sql::DbReplyView::Done,
        )
    &&& forall|t: Accounts, token: Seq<char>|
        !(#[trigger] t.sessions.contains_key(token)) ==> database(
            t,
            request_of(DbCall::CheckSession { token }),
        ) == (t, found(None))
}

/// Ending a session succeeds whether there is one or not, and changes nothing else. The
/// token is refused from then on, and ending the session once more changes nothing.
pub proof fn law_delete_session(database: Database<Accounts>, t: Accounts, token: Seq<char>)
    requires
        keeps_sessions(database),
    ensures
        ({
            let delete = DbCall::DeleteSession { token };
            let after = without_session(t, token);
            &&& operate(database, delete, t) == (after, progress::done(DbValue::Unit))
            &&& operate(database, DbCall::CheckSession { token }, after) == (
                after,
                progress::failed("Недействительный токен"@),
            )
            &&& operate(database, delete, after) == (after, progress::done(DbValue::Unit))
        }),
{
    reveal_with_fuel(run, 4);
    let after = without_session(t, token);
    assert(without_session(after, token) =~= after);
    assert(!after.sessions.contains_key(token));
}

/// Whether the database keeps users: it puts a new one in as given, where nobody has
/// the phone number, the name or the identifier; it finds the identifier and the hash by
/// the phone number; names are looked up and changed, to one that is free, and leave
/// identifier, phone number and hash as they are.
pub open spec fn keeps_users(database: Database<Accounts>) -> bool {
    &&& forall|
        t: Accounts,
        phone: Seq<char>,
        user: User,
        first_name: Option<Seq<char>>,
        last_name: Option<Seq<char>>,
    |
        #![trigger with_user(t, phone, user), store::registration_of(
            user.id,
            user.username,
            phone,
            user.password_hash,
            first_name,
            last_name,
        )]
        !t.users.contains_key(phone) && !is_taken(t, user.username) && !is_user(t, user.id)
            ==> database(
            t,
            store::registration_of(
                user.id,
                user.username,
                phone,
                user.password_hash,
                first_name,
                last_name,
            ).request,
        ) == (with_user(t, phone, user), sql::DbReplyView::Done)
    &&& forall|t: Accounts, phone: Seq<char>, password: Seq<char>|
        #![trigger database(t, request_of(DbCall::LoginUserByPhone { phone, password }))]
        database(t, request_of(DbCall::LoginUserByPhone { phone, password })) == (
            t,
            password_row(t, phone),
        )
    &&& forall|t: Accounts, username: Seq<char>, first: Seq<char>, last: Seq<char>|
        #![trigger database(t, request_of(DbCall::SetName { username, first, last }))]
        database(t, request_of(DbCall::SetName { username, first, last })) == (
            t,
            sql::DbReplyView::Done,
        )
    &&& forall|t: Accounts, username: Seq<char>, display_name: Seq<char>|
        #![trigger database(t, request_of(DbCall::SetDisplayName { username, display_name }))]
        database(t, request_of(DbCall::SetDisplayName { username, display_name })) == (
            t,
            sql::DbReplyView::Done,
        )
    &&& forall|t: Accounts, username: Seq<char>|
        database(t, request_of(DbCall::UserExists { username })) == (
            t,
            found(
                if #[trigger] is_taken(t, username) {
                    Some(Seq::empty())
                } else {
                    None
                },
            ),
        )
    &&& forall|t: Accounts, old_username: Seq<char>, new_username: Seq<char>|
        !is_taken(t, new_username) ==> database(
            t,
            sql::DbRequestView::Execute {
                sql: statements::UPDATE_USERNAME@,
                params: seq![store::param(new_username), store::param(old_username)],
            },
        ) == (#[trigger] with_name(t, old_username, new_username), sql::DbReplyView::Done)
}

/// Whether the operation changes a name.
pub open spec fn changes_name(call: DbCall<Seq<char>>) -> bool {
    call is SetName || call is SetDisplayName || call is SetUsername
}

/// The tables after the operations, one after the other.
pub open spec fn after_all(
    database: Database<Accounts>,
    calls: Seq<DbCall<Seq<char>>>,
    t: Accounts,
) -> Accounts
    decreases calls.len(),
{
    if calls.len() == 0 {
        t
    } else {
        operate(database, calls.last(), after_all(database, calls.drop_last(), t)).0
    }
}

proof fn lemma_name_change(
    database: Database<Accounts>,
    call: DbCall<Seq<char>>,
    t: Accounts,
    phone: Seq<char>,
)
    requires
        keeps_users(database),
        changes_name(call),
        t.users.contains_key(phone),
    ensures
        ({
            let after = operate(database, call, t).0;
            &&& after.users.contains_key(phone)
            &&& after.users[phone].id == t.users[phone].id
            &&& after.users[phone].password_hash == t.users[phone].password_hash
            &&& after.sessions == t.sessions
            &&& unique_ids(t) ==> unique_ids(after)
        }),
{
    reveal_with_fuel(run, 4);
    match call {
        DbCall::SetUsername { old_username, new_username } => {
            let task = store::plain_task(call);
            assert(task.request == request_of(DbCall::UserExists { username: new_username }));
            if !is_taken(t, new_username) {
                let second = store::query_of(
                    statements::SELECT_USER@,
                    seq![store::param(old_username)],
                    DbOp::OldUsername { old_username, new_username },
                );
                assert(progress::resumed(task.op, found(None)) == db::StepView::Ask(second));
                assert(second.request == request_of(DbCall::UserExists { username: old_username }));
                if is_taken(t, old_username) {
                    let none: Seq<Cell<Seq<char>>> = Seq::empty();
                    let third = store::statement_of(
                        statements::UPDATE_USERNAME@,
                        seq![store::param(new_username), store::param(old_username)],
                        DbOp::Statement { label: "Ошибка обновления username: "@ },
                    );
                    assert(progress::resumed(second.op, found(Some(none))) == db::StepView::Ask(
                        third,
                    ));
                    let after = with_name(t, old_username, new_username);
                    assert(database(t, third.request) == (after, sql::DbReplyView::Done));
                    assert(unique_ids(t) ==> unique_ids(after)) by {
                        if unique_ids(t) {
                            assert forall|a: Seq<char>, b: Seq<char>|
                                #[trigger] after.users.contains_key(a)
                                    && #[trigger] after.users.contains_key(b)
                                    && after.users[a].id == after.users[b].id implies a == b by {
                                assert(t.users.contains_key(a) && t.users.contains_key(b));
                            }
                        }
                    }
                }
            }
        },
        DbCall::SetName { username, first, last } => {
            assert(database(t, request_of(call)) == (t, sql::DbReplyView::Done));
        },
        DbCall::SetDisplayName { username, display_name } => {
            assert(database(t, request_of(call)) == (t, sql::DbReplyView::Done));
        },
        _ => {},
    }
}

proof fn lemma_name_changes(
    database: Database<Accounts>,
    calls: Seq<DbCall<Seq<char>>>,
    t: Accounts,
    phone: Seq<char>,
)
    requires
        keeps_users(database),
        forall|i: int| 0 <= i < calls.len() ==> changes_name(#[trigger] calls[i]),
        t.users.contains_key(phone),
    ensures
        ({
            let after = after_all(database, calls, t);
            &&& after.users.contains_key(phone)
            &&& after.users[phone].id == t.users[phone].id
            &&& after.users[phone].password_hash == t.users[phone].password_hash
            &&& after.sessions == t.sessions
            &&& unique_ids(t) ==> unique_ids(after)
        }),
    decreases calls.len(),
{
    if calls.len() > 0 {
        let before = calls.drop_last();
        assert forall|i: int| 0 <= i < before.len() implies changes_name(#[trigger] before[i]) by {
            assert(before[i] == calls[i]);
        }
        lemma_name_changes(database, before, t, phone);
        assert(changes_name(calls[calls.len() - 1]));
        lemma_name_change(database, calls.last(), after_all(database, before, t), phone);
    }
}

/// Whoever has registered logs in with the phone number and with a password that fits
/// the hash, whatever names were changed since, and with no other: the hash that the
/// registration put in decides.
pub proof fn law_login_after_registration(
    database: Database<Accounts>,
    t: Accounts,
    user: User,
    phone: Seq<char>,
    first_name: Option<Seq<char>>,
    last_name: Option<Seq<char>>,
    changes: Seq<DbCall<Seq<char>>>,
    password: Seq<char>,
)
    requires
        keeps_users(database),
        !t.users.contains_key(phone),
        !is_taken(t, user.username),
        !is_user(t, user.id),
        forall|i: int| 0 <= i < changes.len() ==> changes_name(#[trigger] changes[i]),
    ensures
        ({
            let task = store::registration_of(
                user.id,
                user.username,
                phone,
                user.password_hash,
                first_name,
                last_name,
            );
            let registered = run(database, db::StepView::Ask(task), t, 1);
            let later = after_all(database, changes, registered.0);
            &&& registered.1 == progress::done(DbValue::Text(user.id))
            &&& operate(database, DbCall::LoginUserByPhone { phone, password }, later) == (
                later,
                progress::told(
                    progress::login_of(
                        user.id,
                        identity::bcrypt_verification(password, user.password_hash),
                    ),
                ),
            )
        }),
{
    reveal_with_fuel(run, 4);
    let task = store::registration_of(
        user.id,
        user.username,
        phone,
        user.password_hash,
        first_name,
        last_name,
    );
    let after = with_user(t, phone, user);
    assert(database(t, task.request) == (after, sql::DbReplyView::Done));
    assert(run(database, db::StepView::Ask(task), t, 1).0 == after);
    lemma_name_changes(database, changes, after, phone);
    let later = after_all(database, changes, after);
    let login = DbCall::LoginUserByPhone { phone, password };
    assert(database(later, request_of(login)) == (later, password_row(later, phone)));
}

/// A login with an unknown phone number and one with a wrong password are refused with
/// the same words.
pub proof fn law_login_refused(
    database: Database<Accounts>,
    t: Accounts,
    unknown: Seq<char>,
    any_password: Seq<char>,
    phone: Seq<char>,
    password: Seq<char>,
)
    requires
        keeps_users(database),
        !t.users.contains_key(unknown),
        t.users.contains_key(phone),
        identity::bcrypt_verification(password, t.users[phone].password_hash) == Ok::<
            bool,
            Seq<char>,
        >(false),
    ensures
        ({
            let first = DbCall::LoginUserByPhone { phone: unknown, password: any_password };
            let second = DbCall::LoginUserByPhone { phone, password };
            let refusal = progress::failed("Неверный телефон или пароль"@);
            &&& operate(database, first, t) == (t, refusal)
            &&& operate(database, second, t) == (t, refusal)
        }),
{
    reveal_with_fuel(run, 4);
    let first = DbCall::LoginUserByPhone { phone: unknown, password: any_password };
    let second = DbCall::LoginUserByPhone { phone, password };
    assert(database(t, request_of(first)) == (t, password_row(t, unknown)));
    assert(database(t, request_of(second)) == (t, password_row(t, phone)));
}

/// A login changes nothing in the database, whatever comes of it.
pub proof fn law_login_changes_nothing(
    database: Database<Accounts>,
    t: Accounts,
    phone: Seq<char>,
    password: Seq<char>,
)
    requires
        keeps_users(database),
    ensures
        operate(database, DbCall::LoginUserByPhone { phone, password }, t).0 == t,
{
    reveal_with_fuel(run, 4);
    let login = DbCall::LoginUserByPhone { phone, password };
    assert(database(t, request_of(login)) == (t, password_row(t, phone)));
}

/// A session gives the account of its user under the name that the user has at the time.
pub proof fn law_check_session(
    database: Database<Accounts>,
    t: Accounts,
    token: Seq<char>,
    phone: Seq<char>,
)
    requires
        keeps_sessions(database),
        unique_ids(t),
        is_session_of(t, token, phone),
    ensures
        operate(database, DbCall::CheckSession { token }, t) == (
            t,
            progress::done(
                DbValue::Account {
                    user_id: t.users[phone].id,
                    username: t.users[phone].username,
                },
            ),
        ),
{
    reveal_with_fuel(run, 4);
    let check = DbCall::CheckSession { token };
    assert(database(t, request_of(check)) == (t, session_row(t.users[phone])));
    assert(database(t, touch_of(token)) == (t, sql::DbReplyView::Done));
}

/// The tables and what comes of opening a session under the token.
pub open spec fn open_session(
    database: Database<Accounts>,
    token: Seq<char>,
    user_id: Seq<char>,
    device_name: Seq<char>,
    t: Accounts,
) -> (Accounts, db::StepView) {
    run(database, db::StepView::Ask(store::session_of(token, user_id, device_name)), t, 1)
}

/// Opening a session gives its token. The token stays valid whatever names are changed
/// since, and gives the name that the user then has.
pub proof fn law_session_over_name_changes(
    database: Database<Accounts>,
    t: Accounts,
    phone: Seq<char>,
    token: Seq<char>,
    device_name: Seq<char>,
    changes: Seq<DbCall<Seq<char>>>,
)
    requires
        keeps_users(database),
        keeps_sessions(database),
        unique_ids(t),
        t.users.contains_key(phone),
        !t.sessions.contains_key(token),
        forall|i: int| 0 <= i < changes.len() ==> changes_name(#[trigger] changes[i]),
    ensures
        ({
            let id = t.users[phone].id;
            let opened = open_session(database, token, id, device_name, t);
            let later = after_all(database, changes, opened.0);
            &&& opened == (with_session(t, token, id), progress::done(DbValue::Text(token)))
            &&& later.users.contains_key(phone)
            &&& operate(database, DbCall::CheckSession { token }, later) == (
                later,
                progress::done(
                    DbValue::Account { user_id: id, username: later.users[phone].username },
                ),
            )
        }),
{
    reveal_with_fuel(run, 2);
    let id = t.users[phone].id;
    let opened = with_session(t, token, id);
    assert(is_user(t, id));
    assert(database(t, store::session_of(token, id, device_name).request) == (
        opened,
        sql::DbReplyView::Done,
    ));
    assert(unique_ids(opened)) by {
        assert(opened.users == t.users);
    }
    lemma_name_changes(database, changes, opened, phone);
    let later = after_all(database, changes, opened);
    assert(is_session_of(later, token, phone));
    law_check_session(database, later, token, phone);
}

/// A session stays valid when its user takes another name that is free, and gives the new
/// name from then on.
pub proof fn law_session_over_rename(
    database: Database<Accounts>,
    t: Accounts,
    phone: Seq<char>,
    token: Seq<char>,
    new_username: Seq<char>,
)
    requires
        keeps_users(database),
        keeps_sessions(database),
        unique_ids(t),
        is_session_of(t, token, phone),
        !is_taken(t, new_username),
    ensures
        ({
            let user = t.users[phone];
            let rename = DbCall::SetUsername { old_username: user.username, new_username };
            let check = DbCall::CheckSession { token };
            let renamed = operate(database, rename, t);
            &&& operate(database, check, t) == (
                t,
                progress::done(DbValue::Account { user_id: user.id, username: user.username }),
            )
            &&& renamed == (
                with_name(t, user.username, new_username),
                progress::done(DbValue::Unit),
            )
            &&& operate(database, check, renamed.0) == (
                renamed.0,
                progress::done(DbValue::Account { user_id: user.id, username: new_username }),
            )
        }),
{
    reveal_with_fuel(run, 4);
    let user = t.users[phone];
    let old_username = user.username;
    let rename = DbCall::SetUsername { old_username, new_username };
    law_check_session(database, t, token, phone);
    lemma_name_change(database, rename, t, phone);
    assert(is_taken(t, old_username));
    let task = store::plain_task(rename);
    assert(task.request == request_of(DbCall::UserExists { username: new_username }));
    let second = store::query_of(
        statements::SELECT_USER@,
        seq![store::param(old_username)],
        DbOp::OldUsername { old_username, new_username },
    );
    assert(progress::resumed(task.op, found(None)) == db::StepView::Ask(second));
    assert(second.request == request_of(DbCall::UserExists { username: old_username }));
    let none: Seq<Cell<Seq<char>>> = Seq::empty();
    let third = store::statement_of(
        statements::UPDATE_USERNAME@,
        seq![store::param(new_username), store::param(old_username)],
        DbOp::Statement { label: "Ошибка обновления username: "@ },
    );
    assert(progress::resumed(second.op, found(Some(none))) == db::StepView::Ask(third));
    let after = with_name(t, old_username, new_username);
    assert(database(t, third.request) == (after, sql::DbReplyView::Done));
    assert(operate(database, rename, t) == (after, progress::done(DbValue::Unit)));
    assert(is_session_of(after, token, phone));
    law_check_session(database, after, token, phone);
}

/// The tables after sessions of the user were opened, one after the other, under these
/// tokens.
pub open spec fn after_sessions(
    database: Database<Accounts>,
    tokens: Seq<Seq<char>>,
    user_id: Seq<char>,
    device_name: Seq<char>,
    t: Accounts,
) -> Accounts
    decreases tokens.len(),
{
    if tokens.len() == 0 {
        t
    } else {
        open_session(
            database,
            tokens.last(),
            user_id,
            device_name,
            after_sessions(database, tokens.drop_last(), user_id, device_name, t),
        ).0
    }
}

proof fn lemma_sessions(
    database: Database<Accounts>,
    tokens: Seq<Seq<char>>,
    phone: Seq<char>,
    device_name: Seq<char>,
    t: Accounts,
)
    requires
        keeps_sessions(database),
        t.users.contains_key(phone),
        tokens.no_duplicates(),
        forall|i: int|
            0 <= i < tokens.len() ==> !t.sessions.contains_key(#[trigger] tokens[i]),
    ensures
        ({
            let id = t.users[phone].id;
            let after = after_sessions(database, tokens, id, device_name, t);
            &&& after.users == t.users
            &&& forall|token: Seq<char>|
                #![trigger after.sessions.contains_key(token)]
                if tokens.contains(token) {
                    after.sessions.contains_key(token) && after.sessions[token] == id
                } else {
                    after.sessions.contains_key(token) == t.sessions.contains_key(token)
                        && after.sessions[token] == t.sessions[token]
                }
        }),
    decreases tokens.len(),
{
    if tokens.len() > 0 {
        reveal_with_fuel(run, 2);
        let id = t.users[phone].id;
        let before = tokens.drop_last();
        let token = tokens.last();
        assert forall|i: int| 0 <= i < before.len() implies !t.sessions.contains_key(
            #[trigger] before[i],
        ) by {
            assert(before[i] == tokens[i]);
        }
        assert(before.no_duplicates());
        lemma_sessions(database, before, phone, device_name, t);
        let middle = after_sessions(database, before, id, device_name, t);
        assert(!before.contains(token)) by {
            if before.contains(token) {
                let i = choose|i: int| 0 <= i < before.len() && before[i] == token;
                assert(tokens[i] == tokens[tokens.len() - 1]);
            }
        }
        assert(!t.sessions.contains_key(tokens[tokens.len() - 1]));
        assert(!middle.sessions.contains_key(token));
        assert(middle.users.contains_key(phone));
        assert(is_user(middle, id));
        assert(database(middle, store::session_of(token, id, device_name).request) == (
            with_session(middle, token, id),
            sql::DbReplyView::Done,
        ));
        let after = after_sessions(database, tokens, id, device_name, t);
        assert(after == with_session(middle, token, id));
        assert forall|x: Seq<char>| tokens.contains(x) <==> before.contains(x) || x == token by {
            if tokens.contains(x) {
                let i = choose|i: int| 0 <= i < tokens.len() && tokens[i] == x;
                if i < before.len() {
                    assert(before[i] == x);
                }
            }
            if before.contains(x) {
                let i = choose|i: int| 0 <= i < before.len() && before[i] == x;
                assert(tokens[i] == x);
            }
            assert(tokens[tokens.len() - 1] == token);
        }
    }
}

/// A user has as many sessions at once as were opened, under different tokens: each of
/// them is valid, and those that others had stay as they were.
pub proof fn law_sessions_at_once(
    database: Database<Accounts>,
    t: Accounts,
    phone: Seq<char>,
    tokens: Seq<Seq<char>>,
    device_name: Seq<char>,
)
    requires
        keeps_sessions(database),
        unique_ids(t),
        t.users.contains_key(phone),
        tokens.no_duplicates(),
        forall|i: int|
            0 <= i < tokens.len() ==> !t.sessions.contains_key(#[trigger] tokens[i]),
    ensures
        ({
            let user = t.users[phone];
            let after = after_sessions(database, tokens, user.id, device_name, t);
            &&& forall|i: int|
                0 <= i < tokens.len() ==> operate(
                    database,
                    DbCall::CheckSession { token: #[trigger] tokens[i] },
                    after,
                ) == (
                    after,
                    progress::done(
                        DbValue::Account { user_id: user.id, username: user.username },
                    ),
                )
            &&& forall|token: Seq<char>, other: Seq<char>|
                #[trigger] is_session_of(t, token, other) ==> operate(
                    database,
                    DbCall::CheckSession { token },
                    after,
                ) == (after, operate(database, DbCall::CheckSession { token }, t).1)
        }),
{
    lemma_sessions(database, tokens, phone, device_name, t);
    let user = t.users[phone];
    let after = after_sessions(database, tokens, user.id, device_name, t);
    assert(unique_ids(after));
    assert forall|i: int| 0 <= i < tokens.len() implies operate(
        database,
        DbCall::CheckSession { token: #[trigger] tokens[i] },
        after,
    ) == (
        after,
        progress::done(DbValue::Account { user_id: user.id, username: user.username }),
    ) by {
        assert(tokens.contains(tokens[i]));
        assert(after.sessions.contains_key(tokens[i]));
        law_check_session(database, after, tokens[i], phone);
    }
    assert forall|token: Seq<char>, other: Seq<char>|
        #[trigger] is_session_of(t, token, other) implies operate(
        database,
        DbCall::CheckSession { token },
        after,
    ) == (after, operate(database, DbCall::CheckSession { token }, t).1) by {
        assert(!tokens.contains(token)) by {
            if tokens.contains(token) {
                let i = choose|i: int| 0 <= i < tokens.len() && tokens[i] == token;
                assert(!t.sessions.contains_key(tokens[i]));
            }
        }
        assert(after.sessions.contains_key(token));
        law_check_session(database, t, token, other);
        law_check_session(database, after, token, other);
    }
}

} // verus!
