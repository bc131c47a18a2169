//! The commands that users type.

use crate::db;
use crate::db::{Answer, DbCall, DbValue, Room};
use crate::text;
use vstd::prelude::*;

verus! {

broadcast use {text::lemma_views_push, text::lemma_views_len, text::lemma_views_index};

/// A command with its arguments.
#[derive(Debug, PartialEq, Eq)]
pub enum Command<S> {
    CreateRoom { room: Room, name: S },
    JoinRoom { room: Room, name: S },
    LeaveRoom { room: Room, name: S },
    GroupMembers { name: S },
    ListGroups,
    Channels,
    ListUsers,
    Profile,
    SetName { first_name: S, last_name: S },
    SetDisplayName { display_name: S },
    SetUsername { new_username: S },
}

impl View for Command<String> {
    type V = Command<Seq<char>>;

    open spec fn view(&self) -> Command<Seq<char>> {
        match self {
            Command::CreateRoom { room, name } => Command::CreateRoom { room: *room, name: name@ },
            Command::JoinRoom { room, name } => Command::JoinRoom { room: *room, name: name@ },
            Command::LeaveRoom { room, name } => Command::LeaveRoom { room: *room, name: name@ },
            Command::GroupMembers { name } => Command::GroupMembers { name: name@ },
            Command::ListGroups => Command::ListGroups,
            Command::Channels => Command::Channels,
            Command::ListUsers => Command::ListUsers,
            Command::Profile => Command::Profile,
            Command::SetName { first_name, last_name } => Command::SetName {
                first_name: first_name@,
                last_name: last_name@,
            },
            Command::SetDisplayName { display_name } => Command::SetDisplayName {
                display_name: display_name@,
            },
            Command::SetUsername { new_username } => Command::SetUsername {
                new_username: new_username@,
            },
        }
    }
}

/// What is to be done about a line that a user has typed: run a command, or answer at
/// once.
#[derive(Debug, PartialEq, Eq)]
pub enum Typed<S> {
    Run(Command<S>),
    Answer(S),
}

impl View for Typed<String> {
    type V = Typed<Seq<char>>;

    open spec fn view(&self) -> Typed<Seq<char>> {
        match self {
            Typed::Run(command) => Typed::Run(command@),
            Typed::Answer(answer) => Typed::Answer(answer@),
        }
    }
}

/// How a command that takes a name is written.
pub open spec fn usage(command: Seq<char>, argument: Seq<char>) -> Typed<Seq<char>> {
    Typed::Answer("[Система] Использование: "@ + command + " "@ + argument)
}

fn show_usage(command: &str, argument: &str) -> (r: Typed<String>)
    ensures
        r@ == usage(command@, argument@),
{
    let mut answer = text::concat2("[Система] Использование: ", command);
    answer.append(" ");
    answer.append(argument);
    Typed::Answer(answer)
}

/// The arguments of a command, as one text.
pub open spec fn arguments(words: Seq<Seq<char>>) -> Seq<char> {
    text::joined(words.skip(1), " "@)
}

/// What the words of a line ask for. `unknown` is how the line is named where its
/// first word is no command.
pub open spec fn typed_of(words: Seq<Seq<char>>, unknown: Seq<char>) -> Typed<Seq<char>>
    recommends
        words.len() > 0,
{
    let command = words[0];
    let bare = words.len() < 2;
    let name = arguments(words);
    if command == "/creategroup"@ {
        if bare {
            usage(command, "<название>"@)
        } else {
            Typed::Run(Command::CreateRoom { room: Room::Group, name })
        }
    } else if command == "/joingroup"@ {
        if bare {
            usage(command, "<название>"@)
        } else {
            Typed::Run(Command::JoinRoom { room: Room::Group, name })
        }
    } else if command == "/leavegroup"@ {
        if bare {
            usage(command, "<название>"@)
        } else {
            Typed::Run(Command::LeaveRoom { room: Room::Group, name })
        }
    } else if command == "/groupmembers"@ {
        if bare {
            usage(command, "<название>"@)
        } else {
            Typed::Run(Command::GroupMembers { name })
        }
    } else if command == "/listgroups"@ {
        Typed::Run(Command::ListGroups)
    } else if command == "/createchannel"@ {
        if bare {
            usage(command, "<название>"@)
        } else {
            Typed::Run(Command::CreateRoom { room: Room::Channel, name })
        }
    } else if command == "/subscribe"@ {
        if bare {
            usage(command, "<название>"@)
        } else {
            Typed::Run(Command::JoinRoom { room: Room::Channel, name })
        }
    } else if command == "/unsubscribe"@ {
        if bare {
            usage(command, "<название>"@)
        } else {
            Typed::Run(Command::LeaveRoom { room: Room::Channel, name })
        }
    } else if command == "/channels"@ {
        Typed::Run(Command::Channels)
    } else if command == "/listusers"@ {
        Typed::Run(Command::ListUsers)
    } else if command == "/profile"@ {
        Typed::Run(Command::Profile)
    } else if command == "/setname"@ {
        if bare {
            usage(command, "<имя> [фамилия]"@)
        } else {
            Typed::Run(
                Command::SetName {
                    first_name: words[1],
                    last_name: text::joined(words.skip(2), " "@),
                },
            )
        }
    } else if command == "/setdisplayname"@ {
        if bare {
            usage(command, "<отображаемое имя>"@)
        } else {
            Typed::Run(Command::SetDisplayName { display_name: name })
        }
    } else if command == "/setusername"@ {
        if bare {
            usage(command, "<новый_username>"@)
        } else {
            Typed::Run(Command::SetUsername { new_username: words[1] })
        }
    } else {
        Typed::Answer("[Система] Неизвестная команда: "@ + unknown)
    }
}

/// Reads what the words of a line ask for.
pub fn parse_command(words: &Vec<String>, unknown: &str) -> (r: Typed<String>)
    requires
        words@.len() > 0,
    ensures
        r@ == typed_of(text::views(words@), unknown@),
{
    let command = words[0].as_str();
    let bare = words.len() < 2;
    if text::same_text(command, "/creategroup") {
        if bare {
            return show_usage(command, "<название>");
        }
        Typed::Run(Command::CreateRoom { room: Room::Group, name: text::join_from(words, 1, " ") })
    } else if text::same_text(command, "/joingroup") {
        if bare {
            return show_usage(command, "<название>");
        }
        Typed::Run(Command::JoinRoom { room: Room::Group, name: text::join_from(words, 1, " ") })
    } else if text::same_text(command, "/leavegroup") {
        if bare {
            return show_usage(command, "<название>");
        }
        Typed::Run(Command::LeaveRoom { room: Room::Group, name: text::join_from(words, 1, " ") })
    } else if text::same_text(command, "/groupmembers") {
        if bare {
            return show_usage(command, "<название>");
        }
        Typed::Run(Command::GroupMembers { name: text::join_from(words, 1, " ") })
    } else if text::same_text(command, "/listgroups") {
        Typed::Run(Command::ListGroups)
    } else if text::same_text(command, "/createchannel") {
        if bare {
            return show_usage(command, "<название>");
        }
        Typed::Run(
            Command::CreateRoom { room: Room::Channel, name: text::join_from(words, 1, " ") },
        )
    } else if text::same_text(command, "/subscribe") {
        if bare {
            return show_usage(command, "<название>");
        }
        Typed::Run(Command::JoinRoom { room: Room::Channel, name: text::join_from(words, 1, " ") })
    } else if text::same_text(command, "/unsubscribe") {
        if bare {
            return show_usage(command, "<название>");
        }
        Typed::Run(Command::LeaveRoom { room: Room::Channel, name: text::join_from(words, 1, " ") })
    } else if text::same_text(command, "/channels") {
        Typed::Run(Command::Channels)
    } else if text::same_text(command, "/listusers") {
        Typed::Run(Command::ListUsers)
    } else if text::same_text(command, "/profile") {
        Typed::Run(Command::Profile)
    } else if text::same_text(command, "/setname") {
        if bare {
            return show_usage(command, "<имя> [фамилия]");
        }
        Typed::Run(
            Command::SetName {
                first_name: words[1].clone(),
                last_name: text::join_from(words, 2, " "),
            },
        )
    } else if text::same_text(command, "/setdisplayname") {
        if bare {
            return show_usage(command, "<отображаемое имя>");
        }
        Typed::Run(Command::SetDisplayName { display_name: text::join_from(words, 1, " ") })
    } else if text::same_text(command, "/setusername") {
        if bare {
            return show_usage(command, "<новый_username>");
        }
        Typed::Run(Command::SetUsername { new_username: words[1].clone() })
    } else {
        Typed::Answer(text::concat2("[Система] Неизвестная команда: ", unknown))
    }
}

/// What a command asks of the database, on behalf of the user.
pub open spec fn call_of(command: Command<Seq<char>>, username: Seq<char>) -> DbCall<Seq<char>> {
    match command {
        Command::CreateRoom { room, name } => DbCall::CreateRoom { room, name, creator: username },
        Command::JoinRoom { room, name } => DbCall::JoinRoom { room, name, username },
        Command::LeaveRoom { room, name } => DbCall::LeaveRoom { room, name, username },
        Command::GroupMembers { name } => DbCall::GetMembers { room: Room::Group, name },
        Command::ListGroups => DbCall::ListGroups { username },
        Command::Channels => DbCall::ListChannels { username },
        Command::ListUsers => DbCall::ListUsers,
        Command::Profile => DbCall::GetProfile { username },
        Command::SetName { first_name, last_name } => DbCall::SetName {
            username,
            first: first_name,
            last: last_name,
        },
        Command::SetDisplayName { display_name } => DbCall::SetDisplayName {
            username,
            display_name,
        },
        Command::SetUsername { new_username } => DbCall::SetUsername {
            old_username: username,
            new_username,
        },
    }
}

/// The answer where there is nothing to list, and else what is listed.
pub open spec fn list_answer(
    names: Seq<Seq<char>>,
    nothing: Seq<char>,
    before: Seq<char>,
) -> Seq<char> {
    if names.len() == 0 {
        nothing
    } else {
        before + text::joined(names, ", "@)
    }
}

fn answer_list(names: &Vec<String>, nothing: &str, before: &str) -> (r: String)
    ensures
        r@ == list_answer(text::views(names@), nothing@, before@),
{
    if names.len() == 0 {
        nothing.to_owned()
    } else {
        let list = text::join(names, ", ");
        text::concat2(before, list.as_str())
    }
}

/// The answer to a command that has succeeded with this value.
pub open spec fn success_of(command: Command<Seq<char>>, value: db::AnswerView) -> Seq<char> {
    match (command, value) {
        (Command::CreateRoom { room: Room::Group, name }, _) => "[Система] Группа "@ + name
            + " создана"@,
        (Command::CreateRoom { room: Room::Channel, name }, _) => "[Система] Канал "@ + name
            + " создан"@,
        (Command::JoinRoom { room: Room::Group, name }, _) =>
            "[Система] Вы присоединились к группе "@ + name,
        (Command::JoinRoom { room: Room::Channel, name }, _) =>
            "[Система] Вы подписались на канал "@ + name,
        (Command::LeaveRoom { room: Room::Group, name }, _) => "[Система] Вы покинули группу "@
            + name,
        (Command::LeaveRoom { room: Room::Channel, name }, _) =>
            "[Система] Вы отписались от канала "@ + name,
        (Command::GroupMembers { name }, DbValue::Names(members)) => list_answer(
            members,
            "[Система] В группе "@ + name + " нет участников"@,
            "[Система] Участники группы "@ + name + ": "@,
        ),
        (Command::ListGroups, DbValue::Names(groups)) => list_answer(
            groups,
            "[Система] Вы не состоите ни в одной группе"@,
            "[Система] Ваши группы: "@,
        ),
        (Command::Channels, DbValue::Names(channels)) => list_answer(
            channels,
            "[Система] Вы не подписаны ни на один канал"@,
            "[Система] Ваши каналы: "@,
        ),
        (Command::ListUsers, DbValue::Names(users)) => list_answer(
            users,
            "[Система] Нет зарегистрированных пользователей"@,
            "[Система] Пользователи: "@,
        ),
        (Command::Profile, DbValue::Profile(p)) => "[Система] Профиль: username="@ + p.username
            + ", phone="@ + p.phone + ", name="@ + p.first_name + " "@ + p.last_name
            + ", display_name="@ + p.display_name,
        (Command::SetName { first_name, last_name }, _) => "[Система] Имя обновлено: "@
            + first_name + " "@ + last_name,
        (Command::SetDisplayName { display_name }, _) =>
            "[Система] Отображаемое имя обновлено: "@ + display_name,
        (Command::SetUsername { new_username }, _) => "[Система] Username изменён на "@
            + new_username,
        _ => arbitrary(),
    }
}

/// The answer to a command, once the database is done with it.
pub open spec fn answer_of(command: Command<Seq<char>>, outcome: db::Outcome) -> Seq<char> {
    match outcome {
        Ok(value) => success_of(command, value),
        Err(e) => "[Система] Ошибка: "@ + e,
    }
}

impl Command<String> {
    /// What the command asks of the database, on behalf of the user.
    pub fn call(&self, username: &str) -> (r: DbCall<String>)
        ensures
            r@ == call_of(self@, username@),
    {
        match self {
            Command::CreateRoom { room, name } => DbCall::CreateRoom {
                room: *room,
                name: name.clone(),
                creator: username.to_owned(),
            },
            Command::JoinRoom { room, name } => DbCall::JoinRoom {
                room: *room,
                name: name.clone(),
                username: username.to_owned(),
            },
            Command::LeaveRoom { room, name } => DbCall::LeaveRoom {
                room: *room,
                name: name.clone(),
                username: username.to_owned(),
            },
            Command::GroupMembers { name } => DbCall::GetMembers {
                room: Room::Group,
                name: name.clone(),
            },
            Command::ListGroups => DbCall::ListGroups { username: username.to_owned() },
            Command::Channels => DbCall::ListChannels { username: username.to_owned() },
            Command::ListUsers => DbCall::ListUsers,
            Command::Profile => DbCall::GetProfile { username: username.to_owned() },
            Command::SetName { first_name, last_name } => DbCall::SetName {
                username: username.to_owned(),
                first: first_name.clone(),
                last: last_name.clone(),
            },
            Command::SetDisplayName { display_name } => DbCall::SetDisplayName {
                username: username.to_owned(),
                display_name: display_name.clone(),
            },
            Command::SetUsername { new_username } => DbCall::SetUsername {
                old_username: username.to_owned(),
                new_username: new_username.clone(),
            },
        }
    }

    fn success(&self, value: &Answer) -> (r: String)
        requires
            db::kind_of(value@) == db::call_kind(call_of(self@, Seq::empty())),
        ensures
            r@ == success_of(self@, value@),
    {
        match self {
            Command::CreateRoom { room, name } => match room {
                Room::Group => text::concat3("[Система] Группа ", name.as_str(), " создана"),
                Room::Channel => text::concat3("[Система] Канал ", name.as_str(), " создан"),
            },
            Command::JoinRoom { room, name } => match room {
                Room::Group => text::concat2(
                    "[Система] Вы присоединились к группе ",
                    name.as_str(),
                ),
                Room::Channel => text::concat2("[Система] Вы подписались на канал ", name.as_str()),
            },
            Command::LeaveRoom { room, name } => match room {
                Room::Group => text::concat2("[Система] Вы покинули группу ", name.as_str()),
                Room::Channel => text::concat2("[Система] Вы отписались от канала ", name.as_str()),
            },
            Command::GroupMembers { name } => match value {
                DbValue::Names(members) => {
                    let nothing = text::concat3(
                        "[Система] В группе ",
                        name.as_str(),
                        " нет участников",
                    );
                    let before = text::concat3("[Система] Участники группы ", name.as_str(), ": ");
                    answer_list(members, nothing.as_str(), before.as_str())
                },
                _ => {
                    assert(false);
                    String::new()
                },
            },
            Command::ListGroups => match value {
                DbValue::Names(groups) => answer_list(
                    groups,
                    "[Система] Вы не состоите ни в одной группе",
                    "[Система] Ваши группы: ",
                ),
                _ => {
                    assert(false);
                    String::new()
                },
            },
            Command::Channels => match value {
                DbValue::Names(channels) => answer_list(
                    channels,
                    "[Система] Вы не подписаны ни на один канал",
                    "[Система] Ваши каналы: ",
                ),
                _ => {
                    assert(false);
                    String::new()
                },
            },
            Command::ListUsers => match value {
                DbValue::Names(users) => answer_list(
                    users,
                    "[Система] Нет зарегистрированных пользователей",
                    "[Система] Пользователи: ",
                ),
                _ => {
                    assert(false);
                    String::new()
                },
            },
            Command::Profile => match value {
                DbValue::Profile(p) => {
                    let mut r = text::concat3(
                        "[Система] Профиль: username=",
                        p.username.as_str(),
                        ", phone=",
                    );
                    r.append(p.phone.as_str());
                    r.append(", name=");
                    r.append(p.first_name.as_str());
                    r.append(" ");
                    r.append(p.last_name.as_str());
                    r.append(", display_name=");
                    r.append(p.display_name.as_str());
                    r
                },
                _ => {
                    assert(false);
                    String::new()
                },
            },
            Command::SetName { first_name, last_name } => {
                let mut r = text::concat3("[Система] Имя обновлено: ", first_name.as_str(), " ");
                r.append(last_name.as_str());
                r
            },
            Command::SetDisplayName { display_name } => text::concat2(
                "[Система] Отображаемое имя обновлено: ",
                display_name.as_str(),
            ),
            Command::SetUsername { new_username } => text::concat2(
                "[Система] Username изменён на ",
                new_username.as_str(),
            ),
        }
    }

    /// The answer to the command, once the database is done with it.
    pub fn answer(&self, outcome: &Result<Answer, String>) -> (r: String)
        requires
            outcome matches Ok(value) ==> db::kind_of(value@) == db::call_kind(
                call_of(self@, Seq::empty()),
            ),
        ensures
            r@ == answer_of(self@, db::outcome_of(*outcome)),
    {
        match outcome {
            Ok(value) => self.success(value),
            Err(e) => text::concat2("[Система] Ошибка: ", e.as_str()),
        }
    }
}

/// Whether a line is a command does not depend on how it is named where it is none:
/// two lines of the same words run the same command or are shown the same usage.
pub proof fn law_same_words(words: Seq<Seq<char>>, a: Seq<char>, b: Seq<char>)
    requires
        words.len() > 0,
    ensures
        typed_of(words, a) == typed_of(words, b) || {
            &&& typed_of(words, a) == Typed::Answer("[Система] Неизвестная команда: "@ + a)
            &&& typed_of(words, b) == Typed::Answer("[Система] Неизвестная команда: "@ + b)
        },
{
}

/// A command acts for the user who has typed it, and for nobody else: the name that
/// it writes or reads under is that user's.
pub proof fn law_command_acts_for_user(command: Command<Seq<char>>, username: Seq<char>)
    ensures
        match call_of(command, username) {
            DbCall::CreateRoom { creator, .. } => creator == username,
            DbCall::JoinRoom { username: u, .. } => u == username,
            DbCall::LeaveRoom { username: u, .. } => u == username,
            DbCall::ListGroups { username: u } => u == username,
            DbCall::ListChannels { username: u } => u == username,
            DbCall::GetProfile { username: u } => u == username,
            DbCall::SetName { username: u, .. } => u == username,
            DbCall::SetDisplayName { username: u, .. } => u == username,
            DbCall::SetUsername { old_username, .. } => old_username == username,
            DbCall::GetMembers { .. } => true,
            DbCall::ListUsers => true,
            _ => false,
        },
{
}

} // verus!
