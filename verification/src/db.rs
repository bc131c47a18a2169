//! The operations on the database: what is asked of them, how far they have got and
//! what comes of them.

use crate::sql;
use crate::sql::{Column, ColumnKind, DbRequest, Labels};
use crate::text;
use vstd::prelude::*;

verus! {

broadcast use {text::lemma_views_push, text::lemma_views_len, text::lemma_views_index};

/// Where several users talk: everybody in a group, the owner alone in a channel.
#[derive(Clone, Copy, Debug, PartialEq, Eq, Structural)]
pub enum Room {
    Group,
    Channel,
}

/// A message that the database holds.
#[derive(Debug, PartialEq, Eq)]
pub struct StoredMessage<S> {
    pub sender: S,
    pub recipient: S,
    pub content: S,
    pub timestamp: i64,
}

impl View for StoredMessage<String> {
    type V = StoredMessage<Seq<char>>;

    open spec fn view(&self) -> StoredMessage<Seq<char>> {
        StoredMessage {
            sender: self.sender@,
            recipient: self.recipient@,
            content: self.content@,
            timestamp: self.timestamp,
        }
    }
}

/// What a user sees of the own account.
#[derive(Debug, PartialEq, Eq)]
pub struct Profile<S> {
    pub username: S,
    pub phone: S,
    pub first_name: S,
    pub last_name: S,
    pub display_name: S,
}

impl View for Profile<String> {
    type V = Profile<Seq<char>>;

    open spec fn view(&self) -> Profile<Seq<char>> {
        Profile {
            username: self.username@,
            phone: self.phone@,
            first_name: self.first_name@,
            last_name: self.last_name@,
            display_name: self.display_name@,
        }
    }
}

/// An operation with its arguments.
#[derive(Debug, PartialEq, Eq)]
pub enum DbCall<S> {
    RegisterUser {
        username: S,
        phone: S,
        password: S,
        first_name: Option<S>,
        last_name: Option<S>,
    },
    LoginUserByPhone { phone: S, password: S },
    UsernameById { user_id: S },
    CreateSession { user_id: S, device_name: S },
    CheckSession { token: S },
    DeleteSession { token: S },
    UserExists { username: S },
    SaveFcmToken { user_id: S, token: S, device_name: S },
    GetFcmTokens { username: S },
    StoreMessage { sender: S, recipient: S, content: S, timestamp: i64 },
    GetUserMessages { username: S, limit: i64, offset: i64 },
    CreateRoom { room: Room, name: S, creator: S },
    JoinRoom { room: Room, name: S, username: S },
    LeaveRoom { room: Room, name: S, username: S },
    GetMembers { room: Room, name: S },
    IsMember { room: Room, name: S, username: S },
    IsChannelOwner { name: S, username: S },
    StoreRoomMessage { room: Room, name: S, sender: S, content: S, timestamp: i64 },
    GetRoomMessages { room: Room, name: S, limit: i64, offset: i64 },
    RoomHistory { room: Room, username: S },
    ListGroups { username: S },
    ListChannels { username: S },
    ListUsers,
    GetProfile { username: S },
    SetName { username: S, first: S, last: S },
    SetDisplayName { username: S, display_name: S },
    SetUsername { old_username: S, new_username: S },
    Migrate,
    Init,
}

impl View for DbCall<String> {
    type V = DbCall<Seq<char>>;

    open spec fn view(&self) -> DbCall<Seq<char>> {
        match self {
            DbCall::RegisterUser { username, phone, password, first_name, last_name } =>
                DbCall::RegisterUser {
                    username: username@,
                    phone: phone@,
                    password: password@,
                    first_name: text::option_text(*first_name),
                    last_name: text::option_text(*last_name),
                },
            DbCall::LoginUserByPhone { phone, password } => DbCall::LoginUserByPhone {
                phone: phone@,
                password: password@,
            },
            DbCall::UsernameById { user_id } => DbCall::UsernameById { user_id: user_id@ },
            DbCall::CreateSession { user_id, device_name } => DbCall::CreateSession {
                user_id: user_id@,
                device_name: device_name@,
            },
            DbCall::CheckSession { token } => DbCall::CheckSession { token: token@ },
            DbCall::DeleteSession { token } => DbCall::DeleteSession { token: token@ },
            DbCall::UserExists { username } => DbCall::UserExists { username: username@ },
            DbCall::SaveFcmToken { user_id, token, device_name } => DbCall::SaveFcmToken {
                user_id: user_id@,
                token: token@,
                device_name: device_name@,
            },
            DbCall::GetFcmTokens { username } => DbCall::GetFcmTokens { username: username@ },
            DbCall::StoreMessage { sender, recipient, content, timestamp } =>
                DbCall::StoreMessage {
                    sender: sender@,
                    recipient: recipient@,
                    content: content@,
                    timestamp: *timestamp,
                },
            DbCall::GetUserMessages { username, limit, offset } => DbCall::GetUserMessages {
                username: username@,
                limit: *limit,
                offset: *offset,
            },
            DbCall::CreateRoom { room, name, creator } => DbCall::CreateRoom {
                room: *room,
                name: name@,
                creator: creator@,
            },
            DbCall::JoinRoom { room, name, username } => DbCall::JoinRoom {
                room: *room,
                name: name@,
                username: username@,
            },
            DbCall::LeaveRoom { room, name, username } => DbCall::LeaveRoom {
                room: *room,
                name: name@,
                username: username@,
            },
            DbCall::GetMembers { room, name } => DbCall::GetMembers { room: *room, name: name@ },
            DbCall::IsMember { room, name, username } => DbCall::IsMember {
                room: *room,
                name: name@,
                username: username@,
            },
            DbCall::IsChannelOwner { name, username } => DbCall::IsChannelOwner {
                name: name@,
                username: username@,
            },
            DbCall::StoreRoomMessage { room, name, sender, content, timestamp } =>
                DbCall::StoreRoomMessage {
                    room: *room,
                    name: name@,
                    sender: sender@,
                    content: content@,
                    timestamp: *timestamp,
                },
            DbCall::GetRoomMessages { room, name, limit, offset } => DbCall::GetRoomMessages {
                room: *room,
                name: name@,
                limit: *limit,
                offset: *offset,
            },
            DbCall::RoomHistory { room, username } => DbCall::RoomHistory {
                room: *room,
                username: username@,
            },
            DbCall::ListGroups { username } => DbCall::ListGroups { username: username@ },
            DbCall::ListChannels { username } => DbCall::ListChannels { username: username@ },
            DbCall::ListUsers => DbCall::ListUsers,
            DbCall::GetProfile { username } => DbCall::GetProfile { username: username@ },
            DbCall::SetName { username, first, last } => DbCall::SetName {
                username: username@,
                first: first@,
                last: last@,
            },
            DbCall::SetDisplayName { username, display_name } => DbCall::SetDisplayName {
                username: username@,
                display_name: display_name@,
            },
            DbCall::SetUsername { old_username, new_username } => DbCall::SetUsername {
                old_username: old_username@,
                new_username: new_username@,
            },
            DbCall::Migrate => DbCall::Migrate,
            DbCall::Init => DbCall::Init,
        }
    }
}

/// What an operation gives: `L` is a list of texts, `M` a list of messages.
#[derive(Debug, PartialEq, Eq)]
pub enum DbValue<S, L, M> {
    Unit,
    Text(S),
    Flag(bool),
    Names(L),
    Account { user_id: S, username: S },
    Messages(M),
    Profile(Profile<S>),
}

/// What an operation gives.
pub type Answer = DbValue<String, Vec<String>, Vec<StoredMessage<String>>>;

pub type AnswerView = DbValue<Seq<char>, Seq<Seq<char>>, Seq<StoredMessage<Seq<char>>>>;

impl View for DbValue<String, Vec<String>, Vec<StoredMessage<String>>> {
    type V = AnswerView;

    open spec fn view(&self) -> AnswerView {
        match self {
            DbValue::Unit => DbValue::Unit,
            DbValue::Text(s) => DbValue::Text(s@),
            DbValue::Flag(b) => DbValue::Flag(*b),
            DbValue::Names(names) => DbValue::Names(text::views(names@)),
            DbValue::Account { user_id, username } => DbValue::Account {
                user_id: user_id@,
                username: username@,
            },
            DbValue::Messages(messages) => DbValue::Messages(text::views(messages@)),
            DbValue::Profile(profile) => DbValue::Profile(profile@),
        }
    }
}

/// What an operation ends with: its value, or a text that says why there is none.
pub type Outcome = Result<AnswerView, Seq<char>>;

/// The views of a result's two sides.
pub open spec fn outcome_of(r: Result<Answer, String>) -> Outcome {
    match r {
        Ok(v) => Ok(v@),
        Err(e) => Err(e@),
    }
}

/// What becomes of a room once its identifier is known.
#[derive(Debug, PartialEq, Eq)]
pub enum RoomAction<S> {
    Join { username: S },
    Leave { username: S },
    Store { message_id: S, sender: S, content: S, timestamp: i64 },
}

impl View for RoomAction<String> {
    type V = RoomAction<Seq<char>>;

    open spec fn view(&self) -> RoomAction<Seq<char>> {
        match self {
            RoomAction::Join { username } => RoomAction::Join { username: username@ },
            RoomAction::Leave { username } => RoomAction::Leave { username: username@ },
            RoomAction::Store { message_id, sender, content, timestamp } => RoomAction::Store {
                message_id: message_id@,
                sender: sender@,
                content: content@,
                timestamp: *timestamp,
            },
        }
    }
}

/// How far an operation has got: for which of its requests the reply is awaited, and
/// what it needs to go on.
#[derive(Debug, PartialEq, Eq)]
pub enum DbOp<S, L, M> {
    /// The last statement. `label` stands before the database's words where it fails.
    Statement { label: S },
    /// Whether a query has a row.
    Exists { labels: Labels<S> },
    /// The first column of all rows.
    Names { labels: Labels<S>, column: S },
    RegisterUser { user_id: S },
    Login { password: S },
    UsernameById,
    CreateSession { token: S },
    CheckSession { token: S },
    TouchSession { user_id: S, username: S },
    UserMessages,
    RoomMessages { name: S },
    CreateRoom { room: Room, id: S, creator: S },
    FindRoom { room: Room, action: RoomAction<S> },
    HistoryNames { room: Room },
    HistoryRoom { room: Room, name: S, rest: L, found: M },
    ChannelLines,
    UserLines,
    GetProfile,
    /// Whether the new name is taken.
    NewUsername { old_username: S, new_username: S },
    /// Whether the old name is known.
    OldUsername { old_username: S, new_username: S },
    /// The tables are created. The indexes are then made twice.
    InitTables,
    /// Whether a table has its newest column.
    CheckTable { table: usize, again: bool },
    /// The newest column of a table, or the table, is added.
    FixTable { table: usize, again: bool },
    /// The newest column is added to a table with rows, which get a value. `why` is what
    /// was wrong with the plain way.
    AddColumn { table: usize, again: bool, why: S },
    /// What was done of that is undone.
    UndoColumn { why: S },
    /// An index is made. After the last one it starts over where `again` is set.
    MakeIndex { index: usize, again: bool },
}

/// An operation under way.
pub type Op = DbOp<String, Vec<String>, Vec<StoredMessage<String>>>;

pub type OpView = DbOp<Seq<char>, Seq<Seq<char>>, Seq<StoredMessage<Seq<char>>>>;

impl View for DbOp<String, Vec<String>, Vec<StoredMessage<String>>> {
    type V = OpView;

    open spec fn view(&self) -> OpView {
        match self {
            DbOp::Statement { label } => DbOp::Statement { label: label@ },
            DbOp::Exists { labels } => DbOp::Exists { labels: labels@ },
            DbOp::Names { labels, column } => DbOp::Names { labels: labels@, column: column@ },
            DbOp::RegisterUser { user_id } => DbOp::RegisterUser { user_id: user_id@ },
            DbOp::Login { password } => DbOp::Login { password: password@ },
            DbOp::UsernameById => DbOp::UsernameById,
            DbOp::CreateSession { token } => DbOp::CreateSession { token: token@ },
            DbOp::CheckSession { token } => DbOp::CheckSession { token: token@ },
            DbOp::TouchSession { user_id, username } => DbOp::TouchSession {
                user_id: user_id@,
                username: username@,
            },
            DbOp::UserMessages => DbOp::UserMessages,
            DbOp::RoomMessages { name } => DbOp::RoomMessages { name: name@ },
            DbOp::CreateRoom { room, id, creator } => DbOp::CreateRoom {
                room: *room,
                id: id@,
                creator: creator@,
            },
            DbOp::FindRoom { room, action } => DbOp::FindRoom { room: *room, action: action@ },
            DbOp::HistoryNames { room } => DbOp::HistoryNames { room: *room },
            DbOp::HistoryRoom { room, name, rest, found } => DbOp::HistoryRoom {
                room: *room,
                name: name@,
                rest: text::views(rest@),
                found: text::views(found@),
            },
            DbOp::ChannelLines => DbOp::ChannelLines,
            DbOp::UserLines => DbOp::UserLines,
            DbOp::GetProfile => DbOp::GetProfile,
            DbOp::NewUsername { old_username, new_username } => DbOp::NewUsername {
                old_username: old_username@,
                new_username: new_username@,
            },
            DbOp::OldUsername { old_username, new_username } => DbOp::OldUsername {
                old_username: old_username@,
                new_username: new_username@,
            },
            DbOp::InitTables => DbOp::InitTables,
            DbOp::CheckTable { table, again } => DbOp::CheckTable { table: *table, again: *again },
            DbOp::FixTable { table, again } => DbOp::FixTable { table: *table, again: *again },
            DbOp::AddColumn { table, again, why } => DbOp::AddColumn {
                table: *table,
                again: *again,
                why: why@,
            },
            DbOp::UndoColumn { why } => DbOp::UndoColumn { why: why@ },
            DbOp::MakeIndex { index, again } => DbOp::MakeIndex { index: *index, again: *again },
        }
    }
}

/// A request that waits for its reply, and what goes on then.
#[derive(Debug, PartialEq, Eq)]
pub struct DbTask {
    pub request: DbRequest,
    pub op: Op,
}

#[verifier::ext_equal]
pub struct TaskView {
    pub request: sql::DbRequestView,
    pub op: OpView,
}

impl View for DbTask {
    type V = TaskView;

    open spec fn view(&self) -> TaskView {
        TaskView { request: self.request@, op: self.op@ }
    }
}

/// One step of an operation: the next request, or its end.
#[derive(Debug, PartialEq, Eq)]
pub enum DbStep {
    Ask(DbTask),
    Done(Result<Answer, String>),
}

#[verifier::ext_equal]
pub enum StepView {
    Ask(TaskView),
    Done(Outcome),
}

impl View for DbStep {
    type V = StepView;

    open spec fn view(&self) -> StepView {
        match self {
            DbStep::Ask(task) => StepView::Ask(task@),
            DbStep::Done(r) => StepView::Done(outcome_of(*r)),
        }
    }
}

/// A column that is read as a text.
pub open spec fn text_at(index: usize) -> Column {
    Column { index, kind: ColumnKind::Text }
}

/// A column that is read as a number.
pub open spec fn integer_at(index: usize) -> Column {
    Column { index, kind: ColumnKind::Integer }
}

/// The columns that the operation reads, where it awaits the rows of a query.
pub open spec fn columns_of(op: OpView) -> Option<Seq<Column>> {
    match op {
        DbOp::Exists { .. } => Some(Seq::empty()),
        DbOp::Names { .. } => Some(seq![text_at(0)]),
        DbOp::Login { .. } => Some(seq![text_at(0), text_at(1)]),
        DbOp::UsernameById => Some(seq![text_at(0)]),
        DbOp::CheckSession { .. } => Some(seq![text_at(0), text_at(1)]),
        DbOp::UserMessages => Some(seq![text_at(0), text_at(1), text_at(2), integer_at(3)]),
        DbOp::RoomMessages { .. } => Some(seq![text_at(0), text_at(1), integer_at(2)]),
        DbOp::HistoryRoom { .. } => Some(seq![text_at(0), text_at(1), integer_at(2)]),
        DbOp::FindRoom { .. } => Some(seq![text_at(0)]),
        DbOp::HistoryNames { .. } => Some(seq![text_at(0)]),
        DbOp::ChannelLines => Some(seq![text_at(0), text_at(1)]),
        DbOp::UserLines => Some(seq![text_at(0), text_at(1), text_at(2)]),
        DbOp::GetProfile => Some(
            seq![text_at(0), text_at(1), text_at(2), text_at(3), text_at(4)],
        ),
        DbOp::NewUsername { .. } => Some(Seq::empty()),
        DbOp::OldUsername { .. } => Some(Seq::empty()),
        DbOp::CheckTable { .. } => Some(seq![text_at(1)]),
        _ => None,
    }
}

/// Whether the operation reads the first row of its query alone.
pub open spec fn reads_first(op: OpView) -> bool {
    ||| op is Exists
    ||| op is Login
    ||| op is UsernameById
    ||| op is CheckSession
    ||| op is FindRoom
    ||| op is GetProfile
    ||| op is NewUsername
    ||| op is OldUsername
}

impl TaskView {
    /// The request is one whose reply the operation can read.
    pub open spec fn wf(self) -> bool {
        &&& match (columns_of(self.op), self.request) {
            (Some(columns), sql::DbRequestView::Query { columns: read, .. }) => read == columns,
            (None, sql::DbRequestView::Query { .. }) => false,
            (None, _) => true,
            (Some(_), _) => false,
        }
        &&& match self.op {
            DbOp::CheckTable { table, .. } => table < 4,
            DbOp::FixTable { table, .. } => table < 4,
            DbOp::AddColumn { table, .. } => table < 4,
            DbOp::MakeIndex { index, .. } => index < 6,
            _ => true,
        }
    }
}

impl StepView {
    /// The next request, where there is one, is one whose reply can be read.
    pub open spec fn wf(self) -> bool {
        match self {
            StepView::Ask(task) => task.wf(),
            StepView::Done(_) => true,
        }
    }
}

/// What sort of value an operation gives.
#[derive(Clone, Copy, Debug, PartialEq, Eq, Structural)]
pub enum Kind {
    Unit,
    Text,
    Flag,
    Names,
    Account,
    Messages,
    Profile,
}

/// The sort of a value.
pub open spec fn kind_of(value: AnswerView) -> Kind {
    match value {
        DbValue::Unit => Kind::Unit,
        DbValue::Text(_) => Kind::Text,
        DbValue::Flag(_) => Kind::Flag,
        DbValue::Names(_) => Kind::Names,
        DbValue::Account { .. } => Kind::Account,
        DbValue::Messages(_) => Kind::Messages,
        DbValue::Profile(_) => Kind::Profile,
    }
}

/// Tells the sort of a value.
pub fn value_kind(value: &Answer) -> (r: Kind)
    ensures
        r == kind_of(value@),
{
    match value {
        DbValue::Unit => Kind::Unit,
        DbValue::Text(_) => Kind::Text,
        DbValue::Flag(_) => Kind::Flag,
        DbValue::Names(_) => Kind::Names,
        DbValue::Account { .. } => Kind::Account,
        DbValue::Messages(_) => Kind::Messages,
        DbValue::Profile(_) => Kind::Profile,
    }
}

/// The sort of the value that an operation gives.
pub open spec fn call_kind(call: DbCall<Seq<char>>) -> Kind {
    match call {
        DbCall::RegisterUser { .. } => Kind::Text,
        DbCall::LoginUserByPhone { .. } => Kind::Text,
        DbCall::UsernameById { .. } => Kind::Text,
        DbCall::CreateSession { .. } => Kind::Text,
        DbCall::CheckSession { .. } => Kind::Account,
        DbCall::UserExists { .. } => Kind::Flag,
        DbCall::IsMember { .. } => Kind::Flag,
        DbCall::IsChannelOwner { .. } => Kind::Flag,
        DbCall::GetFcmTokens { .. } => Kind::Names,
        DbCall::GetMembers { .. } => Kind::Names,
        DbCall::ListGroups { .. } => Kind::Names,
        DbCall::ListChannels { .. } => Kind::Names,
        DbCall::ListUsers => Kind::Names,
        DbCall::GetUserMessages { .. } => Kind::Messages,
        DbCall::GetRoomMessages { .. } => Kind::Messages,
        DbCall::RoomHistory { .. } => Kind::Messages,
        DbCall::GetProfile { .. } => Kind::Profile,
        _ => Kind::Unit,
    }
}

/// The sort of the value that comes of an operation that has got so far.
pub open spec fn op_kind(op: OpView) -> Kind {
    match op {
        DbOp::Exists { .. } => Kind::Flag,
        DbOp::Names { .. } => Kind::Names,
        DbOp::RegisterUser { .. } => Kind::Text,
        DbOp::Login { .. } => Kind::Text,
        DbOp::UsernameById => Kind::Text,
        DbOp::CreateSession { .. } => Kind::Text,
        DbOp::CheckSession { .. } => Kind::Account,
        DbOp::TouchSession { .. } => Kind::Account,
        DbOp::UserMessages => Kind::Messages,
        DbOp::RoomMessages { .. } => Kind::Messages,
        DbOp::HistoryNames { .. } => Kind::Messages,
        DbOp::HistoryRoom { .. } => Kind::Messages,
        DbOp::ChannelLines => Kind::Names,
        DbOp::UserLines => Kind::Names,
        DbOp::GetProfile => Kind::Profile,
        _ => Kind::Unit,
    }
}

} // verus!
