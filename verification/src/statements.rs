//! The statements that the database is given.

use crate::db::Room;
use vstd::prelude::*;

verus! {

pub const CREATE_TABLES: &'static str = "
            CREATE TABLE IF NOT EXISTS users (
                id TEXT PRIMARY KEY,
                username TEXT UNIQUE NOT NULL,
                phone TEXT UNIQUE NOT NULL,
                password_hash TEXT NOT NULL,
                first_name TEXT,
                last_name TEXT,
                display_name TEXT,
                created_at TIMESTAMP DEFAULT CURRENT_TIMESTAMP
            );
            CREATE TABLE IF NOT EXISTS sessions (
                token TEXT PRIMARY KEY,
                user_id TEXT NOT NULL REFERENCES users(id) ON DELETE CASCADE,
                device_name TEXT,
                last_seen TIMESTAMP,
                created_at TIMESTAMP DEFAULT CURRENT_TIMESTAMP
            );
            CREATE TABLE IF NOT EXISTS messages (
                id TEXT PRIMARY KEY,
                sender_username TEXT NOT NULL,
                recipient_username TEXT NOT NULL,
                content TEXT NOT NULL,
                sent_at TIMESTAMP DEFAULT CURRENT_TIMESTAMP
            );
            CREATE TABLE IF NOT EXISTS groups (
                id TEXT PRIMARY KEY,
                name TEXT UNIQUE NOT NULL,
                creator_username TEXT NOT NULL,
                created_at TIMESTAMP DEFAULT CURRENT_TIMESTAMP
            );
            CREATE TABLE IF NOT EXISTS group_members (
                group_id TEXT REFERENCES groups(id) ON DELETE CASCADE,
                username TEXT NOT NULL,
                role TEXT NOT NULL CHECK(role IN ('owner', 'admin', 'member')),
                joined_at TIMESTAMP DEFAULT CURRENT_TIMESTAMP,
                PRIMARY KEY (group_id, username)
            );
            CREATE TABLE IF NOT EXISTS group_messages (
                id TEXT PRIMARY KEY,
                group_id TEXT REFERENCES groups(id) ON DELETE CASCADE,
                sender_username TEXT NOT NULL,
                content TEXT NOT NULL,
                sent_at TIMESTAMP DEFAULT CURRENT_TIMESTAMP
            );
            CREATE TABLE IF NOT EXISTS channels (
                id TEXT PRIMARY KEY,
                name TEXT UNIQUE NOT NULL,
                creator_username TEXT NOT NULL,
                created_at TIMESTAMP DEFAULT CURRENT_TIMESTAMP
            );
            CREATE TABLE IF NOT EXISTS channel_subscribers (
                channel_id TEXT REFERENCES channels(id) ON DELETE CASCADE,
                username TEXT NOT NULL,
                subscribed_at TIMESTAMP DEFAULT CURRENT_TIMESTAMP,
                PRIMARY KEY (channel_id, username)
            );
            CREATE TABLE IF NOT EXISTS channel_messages (
                id TEXT PRIMARY KEY,
                channel_id TEXT REFERENCES channels(id) ON DELETE CASCADE,
                sender_username TEXT NOT NULL,
                content TEXT NOT NULL,
                sent_at TIMESTAMP DEFAULT CURRENT_TIMESTAMP
            );
        ";

pub const INFO_MESSAGES: &'static str = "PRAGMA table_info(messages)";

pub const INFO_GROUP_MESSAGES: &'static str = "PRAGMA table_info(group_messages)";

pub const INFO_CHANNEL_MESSAGES: &'static str = "PRAGMA table_info(channel_messages)";

pub const INFO_FCM_TOKENS: &'static str = "PRAGMA table_info(fcm_tokens)";

/// The columns by which a table is seen to be up to date.
pub const SENT_AT: &'static str = "sent_at";

pub const TOKEN: &'static str = "token";

pub const ALTER_MESSAGES: &'static str =
    "ALTER TABLE messages ADD COLUMN sent_at TIMESTAMP DEFAULT CURRENT_TIMESTAMP";

pub const ALTER_GROUP_MESSAGES: &'static str =
    "ALTER TABLE group_messages ADD COLUMN sent_at TIMESTAMP DEFAULT CURRENT_TIMESTAMP";

pub const ALTER_CHANNEL_MESSAGES: &'static str =
    "ALTER TABLE channel_messages ADD COLUMN sent_at TIMESTAMP DEFAULT CURRENT_TIMESTAMP";

pub const ADD_MESSAGES: &'static str = "
            BEGIN;
            ALTER TABLE messages ADD COLUMN sent_at TIMESTAMP;
            UPDATE messages SET sent_at = CURRENT_TIMESTAMP WHERE sent_at IS NULL;
            COMMIT;
        ";

pub const ADD_GROUP_MESSAGES: &'static str = "
            BEGIN;
            ALTER TABLE group_messages ADD COLUMN sent_at TIMESTAMP;
            UPDATE group_messages SET sent_at = CURRENT_TIMESTAMP WHERE sent_at IS NULL;
            COMMIT;
        ";

pub const ADD_CHANNEL_MESSAGES: &'static str = "
            BEGIN;
            ALTER TABLE channel_messages ADD COLUMN sent_at TIMESTAMP;
            UPDATE channel_messages SET sent_at = CURRENT_TIMESTAMP WHERE sent_at IS NULL;
            COMMIT;
        ";

pub const ROLLBACK: &'static str = "ROLLBACK";

pub const CREATE_FCM_TOKENS: &'static str = "CREATE TABLE IF NOT EXISTS fcm_tokens (
                id INTEGER PRIMARY KEY AUTOINCREMENT,
                user_id TEXT NOT NULL REFERENCES users(id) ON DELETE CASCADE,
                token TEXT NOT NULL,
                device_name TEXT,
                created_at TIMESTAMP DEFAULT CURRENT_TIMESTAMP,
                UNIQUE(user_id, token)
            )";

pub const INDEX_SENDER: &'static str =
    "CREATE INDEX IF NOT EXISTS idx_messages_sender ON messages(sender_username)";

pub const INDEX_RECIPIENT: &'static str =
    "CREATE INDEX IF NOT EXISTS idx_messages_recipient ON messages(recipient_username)";

pub const INDEX_GROUP: &'static str =
    "CREATE INDEX IF NOT EXISTS idx_group_messages_group ON group_messages(group_id)";

pub const INDEX_CHANNEL: &'static str =
    "CREATE INDEX IF NOT EXISTS idx_channel_messages_channel ON channel_messages(channel_id)";

pub const INDEX_SESSIONS: &'static str =
    "CREATE INDEX IF NOT EXISTS idx_sessions_user ON sessions(user_id)";

pub const INDEX_FCM: &'static str =
    "CREATE INDEX IF NOT EXISTS idx_fcm_user ON fcm_tokens(user_id)";

/// How many tables are brought up to date.
pub const TABLES: usize = 4;

/// How many indexes are made.
pub const INDEXES: usize = 6;

/// The query for the columns of a table that is brought up to date.
pub open spec fn info_of(table: usize) -> Seq<char> {
    if table == 0 {
        INFO_MESSAGES@
    } else if table == 1 {
        INFO_GROUP_MESSAGES@
    } else if table == 2 {
        INFO_CHANNEL_MESSAGES@
    } else {
        INFO_FCM_TOKENS@
    }
}

/// Gives the query for the columns of a table.
pub fn info(table: usize) -> (r: &'static str)
    ensures
        r@ == info_of(table),
{
    if table == 0 {
        INFO_MESSAGES
    } else if table == 1 {
        INFO_GROUP_MESSAGES
    } else if table == 2 {
        INFO_CHANNEL_MESSAGES
    } else {
        INFO_FCM_TOKENS
    }
}

/// The column by which a table is seen to be up to date.
pub open spec fn newest_of(table: usize) -> Seq<char> {
    if table < 3 {
        SENT_AT@
    } else {
        TOKEN@
    }
}

/// Names the column by which a table is seen to be up to date.
pub fn newest(table: usize) -> (r: &'static str)
    ensures
        r@ == newest_of(table),
{
    if table < 3 {
        SENT_AT
    } else {
        TOKEN
    }
}

/// The statement that adds to a table, or adds the table, what it lacks.
pub open spec fn fix_of(table: usize) -> Seq<char> {
    if table == 0 {
        ALTER_MESSAGES@
    } else if table == 1 {
        ALTER_GROUP_MESSAGES@
    } else if table == 2 {
        ALTER_CHANNEL_MESSAGES@
    } else {
        CREATE_FCM_TOKENS@
    }
}

/// Gives the statement that adds what a table lacks.
pub fn fix(table: usize) -> (r: &'static str)
    ensures
        r@ == fix_of(table),
{
    if table == 0 {
        ALTER_MESSAGES
    } else if table == 1 {
        ALTER_GROUP_MESSAGES
    } else if table == 2 {
        ALTER_CHANNEL_MESSAGES
    } else {
        CREATE_FCM_TOKENS
    }
}

/// How many tables may have rows from before their newest column.
pub const FILLED_TABLES: usize = 3;

/// The statements that add the newest column to a table with rows, and give the rows a
/// value, all or nothing. SQLite adds no column to such a table whose default is the
/// current time.
pub open spec fn add_of(table: usize) -> Seq<char> {
    if table == 0 {
        ADD_MESSAGES@
    } else if table == 1 {
        ADD_GROUP_MESSAGES@
    } else {
        ADD_CHANNEL_MESSAGES@
    }
}

/// Gives the statements that add the newest column to a table with rows.
pub fn add_filled(table: usize) -> (r: &'static str)
    ensures
        r@ == add_of(table),
{
    if table == 0 {
        ADD_MESSAGES
    } else if table == 1 {
        ADD_GROUP_MESSAGES
    } else {
        ADD_CHANNEL_MESSAGES
    }
}

/// The statement that makes an index.
pub open spec fn index_of(index: usize) -> Seq<char> {
    if index == 0 {
        INDEX_SENDER@
    } else if index == 1 {
        INDEX_RECIPIENT@
    } else if index == 2 {
        INDEX_GROUP@
    } else if index == 3 {
        INDEX_CHANNEL@
    } else if index == 4 {
        INDEX_SESSIONS@
    } else {
        INDEX_FCM@
    }
}

/// Gives the statement that makes an index.
pub fn index_statement(index: usize) -> (r: &'static str)
    ensures
        r@ == index_of(index),
{
    if index == 0 {
        INDEX_SENDER
    } else if index == 1 {
        INDEX_RECIPIENT
    } else if index == 2 {
        INDEX_GROUP
    } else if index == 3 {
        INDEX_CHANNEL
    } else if index == 4 {
        INDEX_SESSIONS
    } else {
        INDEX_FCM
    }
}

pub const INSERT_USER: &'static str =
    "INSERT INTO users (id, username, phone, password_hash, first_name, last_name, display_name) VALUES (?, ?, ?, ?, ?, ?, ?)";

pub const SELECT_PASSWORD: &'static str = "SELECT id, password_hash FROM users WHERE phone = ?";

pub const SELECT_USERNAME: &'static str = "SELECT username FROM users WHERE id = ?";

pub const INSERT_SESSION: &'static str =
    "INSERT INTO sessions (token, user_id, device_name, last_seen) VALUES (?, ?, ?, CURRENT_TIMESTAMP)";

pub const SELECT_SESSION: &'static str =
    "SELECT user_id, username FROM sessions JOIN users ON sessions.user_id = users.id WHERE sessions.token = ?";

pub const TOUCH_SESSION: &'static str =
    "UPDATE sessions SET last_seen = CURRENT_TIMESTAMP WHERE token = ?";

pub const DELETE_SESSION: &'static str = "DELETE FROM sessions WHERE token = ?";

pub const SELECT_USER: &'static str = "SELECT 1 FROM users WHERE username = ?";

pub const INSERT_FCM: &'static str =
    "INSERT OR REPLACE INTO fcm_tokens (user_id, token, device_name) VALUES (?, ?, ?)";

pub const SELECT_FCM: &'static str =
    "SELECT token FROM fcm_tokens WHERE user_id = (SELECT id FROM users WHERE username = ?)";

pub const INSERT_MESSAGE: &'static str =
    "INSERT INTO messages (id, sender_username, recipient_username, content, sent_at) VALUES (?, ?, ?, ?, datetime(?/1000, 'unixepoch'))";

pub const SELECT_MESSAGES: &'static str =
    "SELECT sender_username, recipient_username, content, strftime('%s', sent_at) * 1000
             FROM messages
             WHERE sender_username = ? OR recipient_username = ?
             ORDER BY sent_at ASC
             LIMIT ? OFFSET ?";

pub const INSERT_GROUP: &'static str =
    "INSERT INTO groups (id, name, creator_username) VALUES (?, ?, ?)";

pub const INSERT_CHANNEL: &'static str =
    "INSERT INTO channels (id, name, creator_username) VALUES (?, ?, ?)";

pub const INSERT_GROUP_OWNER: &'static str =
    "INSERT INTO group_members (group_id, username, role) VALUES (?, ?, 'owner')";

pub const INSERT_CHANNEL_OWNER: &'static str =
    "INSERT INTO channel_subscribers (channel_id, username) VALUES (?, ?)";

pub const SELECT_GROUP: &'static str = "SELECT id FROM groups WHERE name = ?";

pub const SELECT_CHANNEL: &'static str = "SELECT id FROM channels WHERE name = ?";

pub const JOIN_GROUP: &'static str =
    "INSERT OR IGNORE INTO group_members (group_id, username, role) VALUES (?, ?, 'member')";

pub const SUBSCRIBE_CHANNEL: &'static str =
    "INSERT OR IGNORE INTO channel_subscribers (channel_id, username) VALUES (?, ?)";

pub const LEAVE_GROUP: &'static str =
    "DELETE FROM group_members WHERE group_id = ? AND username = ?";

pub const UNSUBSCRIBE_CHANNEL: &'static str =
    "DELETE FROM channel_subscribers WHERE channel_id = ? AND username = ?";

pub const SELECT_GROUP_MEMBERS: &'static str =
    "SELECT gm.username FROM group_members gm JOIN groups g ON gm.group_id = g.id WHERE g.name = ?";

pub const SELECT_SUBSCRIBERS: &'static str =
    "SELECT cs.username FROM channel_subscribers cs JOIN channels c ON cs.channel_id = c.id WHERE c.name = ?";

pub const SELECT_IS_MEMBER: &'static str =
    "SELECT 1 FROM group_members gm JOIN groups g ON gm.group_id = g.id WHERE g.name = ? AND gm.username = ?";

pub const SELECT_IS_SUBSCRIBER: &'static str =
    "SELECT 1 FROM channel_subscribers cs JOIN channels c ON cs.channel_id = c.id WHERE c.name = ? AND cs.username = ?";

pub const SELECT_IS_OWNER: &'static str =
    "SELECT 1 FROM channels WHERE name = ? AND creator_username = ?";

pub const INSERT_GROUP_MESSAGE: &'static str =
    "INSERT INTO group_messages (id, group_id, sender_username, content, sent_at) VALUES (?, ?, ?, ?, datetime(?/1000, 'unixepoch'))";

pub const INSERT_CHANNEL_MESSAGE: &'static str =
    "INSERT INTO channel_messages (id, channel_id, sender_username, content, sent_at) VALUES (?, ?, ?, ?, datetime(?/1000, 'unixepoch'))";

pub const SELECT_GROUP_MESSAGES: &'static str =
    "SELECT gm.sender_username, gm.content, strftime('%s', gm.sent_at) * 1000
             FROM group_messages gm JOIN groups g ON gm.group_id = g.id
             WHERE g.name = ?
             ORDER BY gm.sent_at ASC
             LIMIT ? OFFSET ?";

pub const SELECT_CHANNEL_MESSAGES: &'static str =
    "SELECT cm.sender_username, cm.content, strftime('%s', cm.sent_at) * 1000
             FROM channel_messages cm JOIN channels c ON cm.channel_id = c.id
             WHERE c.name = ?
             ORDER BY cm.sent_at ASC
             LIMIT ? OFFSET ?";

pub const SELECT_MY_GROUPS: &'static str =
    "SELECT g.name FROM groups g JOIN group_members gm ON g.id = gm.group_id WHERE gm.username = ?";

pub const SELECT_MY_CHANNELS: &'static str =
    "SELECT c.name FROM channels c JOIN channel_subscribers cs ON c.id = cs.channel_id WHERE cs.username = ?";

pub const SELECT_MY_CHANNELS_OWNERS: &'static str =
    "SELECT c.name, c.creator_username FROM channels c JOIN channel_subscribers cs ON c.id = cs.channel_id WHERE cs.username = ?";

pub const SELECT_USERS: &'static str =
    "SELECT username, first_name, last_name FROM users ORDER BY username";

pub const SELECT_PROFILE: &'static str =
    "SELECT username, phone, first_name, last_name, display_name FROM users WHERE username = ?";

pub const UPDATE_NAME: &'static str =
    "UPDATE users SET first_name = ?, last_name = ?, display_name = ? WHERE username = ?";

pub const UPDATE_DISPLAY_NAME: &'static str =
    "UPDATE users SET display_name = ? WHERE username = ?";

pub const UPDATE_USERNAME: &'static str = "UPDATE users SET username = ? WHERE username = ?";

/// The texts in which groups and channels differ: the statements and what their
/// failures are reported with.
pub struct RoomTexts<S> {
    pub insert: S,
    pub insert_owner: S,
    pub find: S,
    pub join: S,
    pub leave: S,
    pub members: S,
    pub is_member: S,
    pub insert_message: S,
    pub messages: S,
    pub mine: S,
    pub cannot_insert: S,
    pub cannot_insert_owner: S,
    pub cannot_find: S,
    pub cannot_join: S,
    pub cannot_leave: S,
    pub cannot_list: S,
    pub cannot_store: S,
    pub not_found: S,
}

impl View for RoomTexts<&'static str> {
    type V = RoomTexts<Seq<char>>;

    open spec fn view(&self) -> RoomTexts<Seq<char>> {
        RoomTexts {
            insert: self.insert@,
            insert_owner: self.insert_owner@,
            find: self.find@,
            join: self.join@,
            leave: self.leave@,
            members: self.members@,
            is_member: self.is_member@,
            insert_message: self.insert_message@,
            messages: self.messages@,
            mine: self.mine@,
            cannot_insert: self.cannot_insert@,
            cannot_insert_owner: self.cannot_insert_owner@,
            cannot_find: self.cannot_find@,
            cannot_join: self.cannot_join@,
            cannot_leave: self.cannot_leave@,
            cannot_list: self.cannot_list@,
            cannot_store: self.cannot_store@,
            not_found: self.not_found@,
        }
    }
}

/// The texts of a room of this sort.
pub open spec fn room_texts_of(room: Room) -> RoomTexts<Seq<char>> {
    match room {
        Room::Group => RoomTexts {
            insert: INSERT_GROUP@,
            insert_owner: INSERT_GROUP_OWNER@,
            find: SELECT_GROUP@,
            join: JOIN_GROUP@,
            leave: LEAVE_GROUP@,
            members: SELECT_GROUP_MEMBERS@,
            is_member: SELECT_IS_MEMBER@,
            insert_message: INSERT_GROUP_MESSAGE@,
            messages: SELECT_GROUP_MESSAGES@,
            mine: SELECT_MY_GROUPS@,
            cannot_insert: "Ошибка создания группы: "@,
            cannot_insert_owner: "Ошибка добавления создателя в группу: "@,
            cannot_find: "Ошибка запроса группы: "@,
            cannot_join: "Ошибка присоединения к группе: "@,
            cannot_leave: "Ошибка выхода из группы: "@,
            cannot_list: "Ошибка запроса участников: "@,
            cannot_store: "Ошибка сохранения группового сообщения: "@,
            not_found: "Группа не найдена"@,
        },
        Room::Channel => RoomTexts {
            insert: INSERT_CHANNEL@,
            insert_owner: INSERT_CHANNEL_OWNER@,
            find: SELECT_CHANNEL@,
            join: SUBSCRIBE_CHANNEL@,
            leave: UNSUBSCRIBE_CHANNEL@,
            members: SELECT_SUBSCRIBERS@,
            is_member: SELECT_IS_SUBSCRIBER@,
            insert_message: INSERT_CHANNEL_MESSAGE@,
            messages: SELECT_CHANNEL_MESSAGES@,
            mine: SELECT_MY_CHANNELS@,
            cannot_insert: "Ошибка создания канала: "@,
            cannot_insert_owner: "Ошибка подписки создателя: "@,
            cannot_find: "Ошибка запроса канала: "@,
            cannot_join: "Ошибка подписки: "@,
            cannot_leave: "Ошибка отписки: "@,
            cannot_list: "Ошибка запроса подписчиков: "@,
            cannot_store: "Ошибка сохранения сообщения канала: "@,
            not_found: "Канал не найден"@,
        },
    }
}

/// Gives the texts of a room of this sort.
pub fn room_texts(room: Room) -> (r: RoomTexts<&'static str>)
    ensures
        r@ == room_texts_of(room),
{
    match room {
        Room::Group => RoomTexts {
            insert: INSERT_GROUP,
            insert_owner: INSERT_GROUP_OWNER,
            find: SELECT_GROUP,
            join: JOIN_GROUP,
            leave: LEAVE_GROUP,
            members: SELECT_GROUP_MEMBERS,
            is_member: SELECT_IS_MEMBER,
            insert_message: INSERT_GROUP_MESSAGE,
            messages: SELECT_GROUP_MESSAGES,
            mine: SELECT_MY_GROUPS,
            cannot_insert: "Ошибка создания группы: ",
            cannot_insert_owner: "Ошибка добавления создателя в группу: ",
            cannot_find: "Ошибка запроса группы: ",
            cannot_join: "Ошибка присоединения к группе: ",
            cannot_leave: "Ошибка выхода из группы: ",
            cannot_list: "Ошибка запроса участников: ",
            cannot_store: "Ошибка сохранения группового сообщения: ",
            not_found: "Группа не найдена",
        },
        Room::Channel => RoomTexts {
            insert: INSERT_CHANNEL,
            insert_owner: INSERT_CHANNEL_OWNER,
            find: SELECT_CHANNEL,
            join: SUBSCRIBE_CHANNEL,
            leave: UNSUBSCRIBE_CHANNEL,
            members: SELECT_SUBSCRIBERS,
            is_member: SELECT_IS_SUBSCRIBER,
            insert_message: INSERT_CHANNEL_MESSAGE,
            messages: SELECT_CHANNEL_MESSAGES,
            mine: SELECT_MY_CHANNELS,
            cannot_insert: "Ошибка создания канала: ",
            cannot_insert_owner: "Ошибка подписки создателя: ",
            cannot_find: "Ошибка запроса канала: ",
            cannot_join: "Ошибка подписки: ",
            cannot_leave: "Ошибка отписки: ",
            cannot_list: "Ошибка запроса подписчиков: ",
            cannot_store: "Ошибка сохранения сообщения канала: ",
            not_found: "Канал не найден",
        },
    }
}

/// Whether the text is one of the statements above.
pub open spec fn is_statement(sql: Seq<char>) -> bool {
    ||| sql == CREATE_TABLES@
    ||| sql == INFO_MESSAGES@
    ||| sql == INFO_GROUP_MESSAGES@
    ||| sql == INFO_CHANNEL_MESSAGES@
    ||| sql == INFO_FCM_TOKENS@
    ||| sql == ALTER_MESSAGES@
    ||| sql == ALTER_GROUP_MESSAGES@
    ||| sql == ALTER_CHANNEL_MESSAGES@
    ||| sql == ADD_MESSAGES@
    ||| sql == ADD_GROUP_MESSAGES@
    ||| sql == ADD_CHANNEL_MESSAGES@
    ||| sql == ROLLBACK@
    ||| sql == CREATE_FCM_TOKENS@
    ||| sql == INDEX_SENDER@
    ||| sql == INDEX_RECIPIENT@
    ||| sql == INDEX_GROUP@
    ||| sql == INDEX_CHANNEL@
    ||| sql == INDEX_SESSIONS@
    ||| sql == INDEX_FCM@
    ||| sql == INSERT_USER@
    ||| sql == SELECT_PASSWORD@
    ||| sql == SELECT_USERNAME@
    ||| sql == INSERT_SESSION@
    ||| sql == SELECT_SESSION@
    ||| sql == TOUCH_SESSION@
    ||| sql == DELETE_SESSION@
    ||| sql == SELECT_USER@
    ||| sql == INSERT_FCM@
    ||| sql == SELECT_FCM@
    ||| sql == INSERT_MESSAGE@
    ||| sql == SELECT_MESSAGES@
    ||| sql == INSERT_GROUP@
    ||| sql == INSERT_CHANNEL@
    ||| sql == INSERT_GROUP_OWNER@
    ||| sql == INSERT_CHANNEL_OWNER@
    ||| sql == SELECT_GROUP@
    ||| sql == SELECT_CHANNEL@
    ||| sql == JOIN_GROUP@
    ||| sql == SUBSCRIBE_CHANNEL@
    ||| sql == LEAVE_GROUP@
    ||| sql == UNSUBSCRIBE_CHANNEL@
    ||| sql == SELECT_GROUP_MEMBERS@
    ||| sql == SELECT_SUBSCRIBERS@
    ||| sql == SELECT_IS_MEMBER@
    ||| sql == SELECT_IS_SUBSCRIBER@
    ||| sql == SELECT_IS_OWNER@
    ||| sql == INSERT_GROUP_MESSAGE@
    ||| sql == INSERT_CHANNEL_MESSAGE@
    ||| sql == SELECT_GROUP_MESSAGES@
    ||| sql == SELECT_CHANNEL_MESSAGES@
    ||| sql == SELECT_MY_GROUPS@
    ||| sql == SELECT_MY_CHANNELS@
    ||| sql == SELECT_MY_CHANNELS_OWNERS@
    ||| sql == SELECT_USERS@
    ||| sql == SELECT_PROFILE@
    ||| sql == UPDATE_NAME@
    ||| sql == UPDATE_DISPLAY_NAME@
    ||| sql == UPDATE_USERNAME@
}

} // verus!
