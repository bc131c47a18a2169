//! The first message of a client: who is there.

use crate::text;
use crate::wire;
use vstd::prelude::*;

verus! {

broadcast use {text::lemma_views_push, text::lemma_views_len, text::lemma_views_index};

/// How a client wants to sign in. `fcm` is the push token of the device.
#[derive(Debug, PartialEq, Eq)]
pub enum AuthRequest<S> {
    /// With the token of an earlier session.
    Token { token: S, device_name: S, fcm: Option<S> },
    /// With phone number and password.
    Login { phone: S, password: S, device_name: S, fcm: Option<S> },
    /// As a new user.
    Register {
        username: S,
        phone: S,
        password: S,
        first_name: Option<S>,
        last_name: Option<S>,
        device_name: S,
        fcm: Option<S>,
    },
    /// In a way that the server does not know.
    Unknown { command: S },
}

impl View for AuthRequest<String> {
    type V = AuthRequest<Seq<char>>;

    open spec fn view(&self) -> AuthRequest<Seq<char>> {
        match self {
            AuthRequest::Token { token, device_name, fcm } => AuthRequest::Token {
                token: token@,
                device_name: device_name@,
                fcm: text::option_text(*fcm),
            },
            AuthRequest::Login { phone, password, device_name, fcm } => AuthRequest::Login {
                phone: phone@,
                password: password@,
                device_name: device_name@,
                fcm: text::option_text(*fcm),
            },
            AuthRequest::Register {
                username,
                phone,
                password,
                first_name,
                last_name,
                device_name,
                fcm,
            } => AuthRequest::Register {
                username: username@,
                phone: phone@,
                password: password@,
                first_name: text::option_text(*first_name),
                last_name: text::option_text(*last_name),
                device_name: device_name@,
                fcm: text::option_text(*fcm),
            },
            AuthRequest::Unknown { command } => AuthRequest::Unknown { command: command@ },
        }
    }
}

/// The name of a device that does not say what it is.
pub const UNKNOWN_DEVICE: &'static str = "unknown";

/// The part at the index, without white space at its ends, where there are more than
/// `more` parts.
pub open spec fn part(parts: Seq<Seq<char>>, index: int, more: int) -> Option<Seq<char>> {
    if parts.len() > more {
        Some(text::trimmed(parts[index]))
    } else {
        None
    }
}

fn part_at(parts: &Vec<String>, index: usize, more: usize) -> (r: Option<String>)
    requires
        index <= more,
    ensures
        text::option_text(r) == part(text::views(parts@), index as int, more as int),
{
    if parts.len() > more {
        Some(text::trim(parts[index].as_str()))
    } else {
        None
    }
}

/// The name of the device, where it is given.
pub open spec fn device(name: Option<Seq<char>>) -> Seq<char> {
    match name {
        Some(name) => name,
        None => UNKNOWN_DEVICE@,
    }
}

fn device_or_unknown(name: Option<String>) -> (r: String)
    ensures
        r@ == device(text::option_text(name)),
{
    match name {
        Some(name) => name,
        None => UNKNOWN_DEVICE.to_owned(),
    }
}

/// The push token of a user who is known already: the last of more than four parts.
/// A new user has it behind everything else that a registration can state.
pub open spec fn push_token(parts: Seq<Seq<char>>) -> Option<Seq<char>> {
    part(parts, parts.len() - 1, 4)
}

/// The name of a new user: the one that is given, or else the phone number.
pub open spec fn chosen_name(given: Option<Seq<char>>, phone: Seq<char>) -> Seq<char> {
    match given {
        Some(name) => if name.len() > 0 {
            name
        } else {
            phone
        },
        None => phone,
    }
}

/// What the parts of the first message ask for. Fewer than three parts ask for
/// nothing.
pub open spec fn auth_of(parts: Seq<Seq<char>>) -> Option<AuthRequest<Seq<char>>> {
    if parts.len() < 3 {
        None
    } else {
        let phone = text::trimmed(parts[1]);
        let password = text::trimmed(parts[2]);
        let fcm = push_token(parts);
        Some(
            if parts[0] == "token"@ {
                AuthRequest::Token {
                    token: text::trimmed(parts[1]),
                    device_name: device(part(parts, 2, 3)),
                    fcm,
                }
            } else if parts[0] == "login"@ {
                AuthRequest::Login {
                    phone,
                    password,
                    device_name: device(part(parts, 3, 4)),
                    fcm,
                }
            } else if parts[0] == "register"@ {
                AuthRequest::Register {
                    username: chosen_name(part(parts, 5, 5), phone),
                    phone,
                    password,
                    first_name: part(parts, 3, 3),
                    last_name: part(parts, 4, 4),
                    device_name: device(part(parts, 6, 6)),
                    fcm: part(parts, 7, 7),
                }
            } else {
                AuthRequest::Unknown { command: parts[0] }
            },
        )
    }
}

/// Reads what the parts of the first message ask for.
pub fn parse_parts(parts: &Vec<String>) -> (r: Option<AuthRequest<String>>)
    ensures
        match auth_of(text::views(parts@)) {
            Some(request) => r is Some && r->Some_0@ == request,
            None => r is None,
        },
{
    if parts.len() < 3 {
        return None;
    }
    let phone = text::trim(parts[1].as_str());
    let password = text::trim(parts[2].as_str());
    let fcm = if parts.len() > 4 {
        Some(text::trim(parts[parts.len() - 1].as_str()))
    } else {
        None
    };
    let command = parts[0].as_str();
    if text::same_text(command, "token") {
        let device_name = device_or_unknown(part_at(parts, 2, 3));
        Some(AuthRequest::Token { token: phone, device_name, fcm })
    } else if text::same_text(command, "login") {
        let device_name = device_or_unknown(part_at(parts, 3, 4));
        Some(AuthRequest::Login { phone, password, device_name, fcm })
    } else if text::same_text(command, "register") {
        let first_name = part_at(parts, 3, 3);
        let last_name = part_at(parts, 4, 4);
        let username = match part_at(parts, 5, 5) {
            Some(name) => if name.as_str().is_empty() {
                phone.clone()
            } else {
                name
            },
            None => phone.clone(),
        };
        let device_name = device_or_unknown(part_at(parts, 6, 6));
        let fcm = part_at(parts, 7, 7);
        Some(
            AuthRequest::Register {
                username,
                phone,
                password,
                first_name,
                last_name,
                device_name,
                fcm,
            },
        )
    } else {
        Some(AuthRequest::Unknown { command: parts[0].clone() })
    }
}

/// Whether a first message that says it is one has room for the bytes before its
/// text.
pub open spec fn auth_frame_complete(data: Seq<u8>) -> bool {
    data.len() > 0 && data[0] == wire::MSG_TYPE_AUTH ==> data.len() >= 5
}

/// Tells whether the first message can be read.
pub fn is_auth_frame_complete(data: &[u8]) -> (r: bool)
    ensures
        r == auth_frame_complete(data@),
{
    data.len() == 0 || data[0] != wire::MSG_TYPE_AUTH || data.len() >= 5
}

/// What the first message asks for: nothing where it is of another type, and else
/// what the parts of its text ask for. Four bytes between type and text are skipped.
pub open spec fn auth_frame_of(data: Seq<u8>) -> Option<AuthRequest<Seq<char>>> {
    if data.len() == 0 || data[0] != wire::MSG_TYPE_AUTH {
        None
    } else {
        auth_of(text::pieces(text::utf8_or_empty(data.skip(5)), '|'))
    }
}

/// Reads what the first message asks for.
pub fn parse_auth(data: &[u8]) -> (r: Option<AuthRequest<String>>)
    requires
        auth_frame_complete(data@),
    ensures
        match auth_frame_of(data@) {
            Some(request) => r is Some && r->Some_0@ == request,
            None => r is None,
        },
{
    if data.len() == 0 || data[0] != wire::MSG_TYPE_AUTH {
        return None;
    }
    let bytes = wire::copy_range(data, 5, data.len());
    assert(data@.skip(5) =~= data@.subrange(5, data@.len() as int));
    let s = text::decode_or_empty(bytes);
    let parts = text::split(s.as_str(), '|');
    parse_parts(&parts)
}

} // verus!
