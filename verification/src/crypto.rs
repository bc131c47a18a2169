//! The keys of a connection, and the encryption of what is sent over it.

use crate::text;
use crate::wire;
use aes_gcm::aead::{Aead, AeadCore, KeyInit, OsRng};
use vstd::prelude::*;
use vstd::utf8::*;

verus! {

/// The longest message that is encrypted, in bytes.
pub const MAX_MESSAGE_SIZE: usize = 65536;

/// How many bytes the encryption adds to a message.
pub const TAG_LEN: usize = 16;

/// What the derivation of a session key is bound to.
pub const KEY_INFO: &'static str = "relay-server";

/// The X25519 public key of a secret.
pub uninterp spec fn x25519_public(secret: Seq<u8>) -> Seq<u8>;

/// What X25519 makes of one side's secret and the other side's public key.
pub uninterp spec fn x25519_shared(secret: Seq<u8>, their_public: Seq<u8>) -> Seq<u8>;

/// `StaticSecret::random_from_rng`: 32 bytes of the system's random numbers.
#[verifier::external_body]
pub(crate) fn random_secret() -> (r: [u8; 32]) {
    x25519_dalek::StaticSecret::random_from_rng(OsRng).to_bytes()
}

/// `PublicKey::from` of a `StaticSecret`.
#[verifier::external_body]
pub(crate) fn public_key(secret: &[u8; 32]) -> (r: [u8; 32])
    ensures
        r@ == x25519_public(secret@),
{
    x25519_dalek::PublicKey::from(&x25519_dalek::StaticSecret::from(*secret)).to_bytes()
}

/// `StaticSecret::diffie_hellman`. The other side gets the same from its own secret
/// and our public key.
#[verifier::external_body]
pub(crate) fn diffie_hellman(secret: &[u8; 32], their_public: &[u8; 32]) -> (r: [u8; 32])
    ensures
        r@ == x25519_shared(secret@, their_public@),
        forall|theirs: Seq<u8>|
            theirs.len() == 32 && their_public@ == #[trigger] x25519_public(theirs) ==> r@
                == x25519_shared(theirs, x25519_public(secret@)),
{
    x25519_dalek::StaticSecret::from(*secret)
        .diffie_hellman(&x25519_dalek::PublicKey::from(*their_public))
        .to_bytes()
}

/// The first 32 bytes of HKDF-SHA256 without a salt.
pub uninterp spec fn hkdf_sha256(input: Seq<u8>, info: Seq<u8>) -> Seq<u8>;

/// `Hkdf::<Sha256>::new` without a salt, then `Hkdf::expand` to 32 bytes. An
/// expansion fails only where more than 255 blocks are asked for, so this one does
/// not.
#[verifier::external_body]
pub(crate) fn hkdf_expand(input: &[u8], info: &[u8]) -> (r: Result<[u8; 32], String>)
    ensures
        r is Ok,
        r->Ok_0@ == hkdf_sha256(input@, info@),
{
    let mut okm = [0u8; 32];
    hkdf::Hkdf::<sha2::Sha256>::new(None, input)
        .expand(info, &mut okm)
        .map_err(|e| e.to_string())?;
    Ok(okm)
}

/// The ciphertext and tag of AES-256-GCM without associated data.
pub uninterp spec fn aes256gcm_sealed(key: Seq<u8>, nonce: Seq<u8>, plaintext: Seq<u8>) -> Seq<u8>;

/// The plaintext of AES-256-GCM without associated data, where the tag is right.
pub uninterp spec fn aes256gcm_opened(key: Seq<u8>, nonce: Seq<u8>, sealed: Seq<u8>) -> Option<
    Seq<u8>,
>;

/// `Aead::encrypt` of `Aes256Gcm`. It refuses what is longer than 2^36 bytes, with
/// the error's fixed text; what it encrypts grows by the tag of 16 bytes, and
/// opens again under the same key and nonce.
#[verifier::external_body]
pub(crate) fn aes256gcm_encrypt(key: &[u8; 32], nonce: &[u8], plaintext: &[u8]) -> (r: Result<
    Vec<u8>,
    String,
>)
    requires
        nonce@.len() == 12,
    ensures
        r is Ok <==> plaintext@.len() <= 0x10_0000_0000,
        r matches Ok(c) ==> c@ == aes256gcm_sealed(key@, nonce@, plaintext@) && c@.len()
            == plaintext@.len() + 16 && aes256gcm_opened(key@, nonce@, c@) == Some(plaintext@),
        r matches Err(e) ==> e@ == "aead::Error"@,
{
    aes_gcm::Aes256Gcm::new(aes_gcm::Key::<aes_gcm::Aes256Gcm>::from_slice(key))
        .encrypt(aes_gcm::Nonce::from_slice(nonce), plaintext)
        .map_err(|e| e.to_string())
}

/// `Aead::decrypt` of `Aes256Gcm`. Its error says nothing of the reason.
#[verifier::external_body]
pub(crate) fn aes256gcm_decrypt(key: &[u8; 32], nonce: &[u8], sealed: &[u8]) -> (r: Option<
    Vec<u8>,
>)
    requires
        nonce@.len() == 12,
    ensures
        r is Some <==> aes256gcm_opened(key@, nonce@, sealed@) is Some,
        r matches Some(p) ==> aes256gcm_opened(key@, nonce@, sealed@) == Some(p@),
{
    aes_gcm::Aes256Gcm::new(aes_gcm::Key::<aes_gcm::Aes256Gcm>::from_slice(key))
        .decrypt(aes_gcm::Nonce::from_slice(nonce), sealed)
        .ok()
}

/// `AeadCore::generate_nonce` of `Aes256Gcm`: twelve bytes of the system's random
/// numbers.
#[verifier::external_body]
pub(crate) fn generate_nonce() -> (r: Vec<u8>)
    ensures
        r@.len() == 12,
{
    aes_gcm::Aes256Gcm::generate_nonce(&mut OsRng).to_vec()
}

/// The key of one connection.
#[derive(Clone, Copy, Debug, PartialEq, Eq)]
pub struct SessionKeys {
    pub key: [u8; 32],
}

/// What was read from a connection.
pub enum Incoming {
    /// A binary message.
    Binary(Vec<u8>),
    /// A message of another kind.
    Other,
    /// Reading failed.
    Failed(String),
    /// The connection is at its end.
    End,
}

pub enum IncomingView {
    Binary(Seq<u8>),
    Other,
    Failed(Seq<char>),
    End,
}

impl View for Incoming {
    type V = IncomingView;

    open spec fn view(&self) -> IncomingView {
        match self {
            Incoming::Binary(d) => IncomingView::Binary(d@),
            Incoming::Other => IncomingView::Other,
            Incoming::Failed(e) => IncomingView::Failed(e@),
            Incoming::End => IncomingView::End,
        }
    }
}

/// The client's public key, or why the first message does not hold one.
pub open spec fn client_key_of(first: IncomingView) -> Result<Seq<u8>, Seq<char>> {
    match first {
        IncomingView::End => Err("No message received"@),
        IncomingView::Failed(e) => Err("WebSocket error: "@ + e),
        IncomingView::Other => Err("Expected binary"@),
        IncomingView::Binary(d) => if d.len() == 32 {
            Ok(d)
        } else {
            Err("Invalid public key length: "@ + text::decimal(d.len()))
        },
    }
}

/// Takes the client's public key out of the first message of a connection.
pub fn client_key(first: &Incoming) -> (r: Result<[u8; 32], String>)
    ensures
        match client_key_of(first@) {
            Ok(k) => r is Ok && r->Ok_0@ == k,
            Err(e) => r is Err && r->Err_0@ == e,
        },
{
    match first {
        Incoming::End => Err("No message received".to_owned()),
        Incoming::Failed(e) => Err(text::concat2("WebSocket error: ", e.as_str())),
        Incoming::Other => Err("Expected binary".to_owned()),
        Incoming::Binary(data) => {
            if data.len() != 32 {
                let n = text::decimal_text(data.len());
                return Err(text::concat2("Invalid public key length: ", n.as_str()));
            }
            let mut key: [u8; 32] = [0u8; 32];
            let mut i: usize = 0;
            while i < 32
                invariant
                    i <= 32,
                    data@.len() == 32,
                    forall|j: int| 0 <= j < i ==> key@[j] == data@[j],
                decreases 32 - i,
            {
                key[i] = data[i];
                i = i + 1;
            }
            assert(key@ =~= data@);
            Ok(key)
        },
    }
}

/// The session key that belongs to a shared secret.
pub open spec fn session_key_of(shared: Seq<u8>) -> Seq<u8> {
    hkdf_sha256(shared, encode_utf8(KEY_INFO@))
}

/// Derives the session key from the shared secret.
pub fn session_keys(shared: &[u8; 32]) -> (r: Result<SessionKeys, String>)
    ensures
        r is Ok,
        r->Ok_0.key@ == session_key_of(shared@),
{
    match hkdf_expand(shared.as_slice(), KEY_INFO.as_bytes()) {
        Ok(key) => Ok(SessionKeys { key }),
        Err(e) => Err(text::concat2("HKDF error: ", e.as_str())),
    }
}

/// What the server answers the first message of a connection with, given its own
/// secret: its public key and the key of the connection, or why there is none.
pub open spec fn handshake_of(first: IncomingView, secret: Seq<u8>) -> Result<
    (Seq<u8>, Seq<u8>),
    Seq<char>,
> {
    match client_key_of(first) {
        Ok(client) => Ok(
            (x25519_public(secret), session_key_of(x25519_shared(secret, client))),
        ),
        Err(e) => Err(e),
    }
}

/// Answers the first message of a connection with the server's public key and the
/// key of the connection, or with the reason why there is none.
///
/// Where the client's public key belongs to a secret of the client's, the client
/// derives the same key from that secret and the server's public key.
pub fn handshake(first: &Incoming, secret: &[u8; 32]) -> (r: Result<([u8; 32], SessionKeys), String>)
    ensures
        match handshake_of(first@, secret@) {
            Ok((public, key)) => r is Ok && r->Ok_0.0@ == public && r->Ok_0.1.key@ == key,
            Err(e) => r is Err && r->Err_0@ == e,
        },
        r matches Ok((public, keys)) ==> forall|theirs: Seq<u8>|
            theirs.len() == 32 && client_key_of(first@)->Ok_0 == #[trigger] x25519_public(theirs)
                ==> keys.key@ == session_key_of(x25519_shared(theirs, public@)),
{
    match client_key(first) {
        Ok(client) => {
            let public = public_key(secret);
            let shared = diffie_hellman(secret, &client);
            match session_keys(&shared) {
                Ok(keys) => Ok((public, keys)),
                Err(e) => Err(e),
            }
        },
        Err(e) => Err(e),
    }
}

/// Answers the first message of a connection under a fresh secret.
pub fn ws_handshake(first: &Incoming) -> (r: Result<([u8; 32], SessionKeys), String>)
    ensures
        match client_key_of(first@) {
            Ok(client) => {
                &&& r is Ok
                &&& exists|secret: Seq<u8>|
                    secret.len() == 32 && handshake_of(first@, secret) == Ok::<
                        (Seq<u8>, Seq<u8>),
                        Seq<char>,
                    >((#[trigger] x25519_public(secret), r->Ok_0.1.key@)) && r->Ok_0.0@
                        == x25519_public(secret)
                &&& forall|theirs: Seq<u8>|
                    theirs.len() == 32 && client == #[trigger] x25519_public(theirs)
                        ==> r->Ok_0.1.key@ == session_key_of(x25519_shared(theirs, r->Ok_0.0@))
            },
            Err(e) => r is Err && r->Err_0@ == e,
        },
{
    let secret = random_secret();
    handshake(first, &secret)
}

/// The frame of an encrypted message, or why there is none.
pub open spec fn encrypted_frame_of(
    key: Seq<u8>,
    nonce: Seq<u8>,
    sender: Seq<char>,
    recipient: Seq<char>,
    plaintext: Seq<u8>,
    timestamp: int,
) -> Result<Seq<u8>, Seq<char>> {
    if plaintext.len() > MAX_MESSAGE_SIZE {
        Err("Message too large"@)
    } else {
        Ok(
            wire::user_frame_of(
                sender,
                recipient,
                nonce,
                aes256gcm_sealed(key, nonce, plaintext),
                timestamp,
            ),
        )
    }
}

/// Whether a frame, taken apart and opened with the key, gives back the message.
pub open spec fn frame_carries(
    frame: Seq<u8>,
    key: Seq<u8>,
    sender: Seq<char>,
    recipient: Seq<char>,
    plaintext: Seq<u8>,
    timestamp: int,
) -> bool {
    let rest = frame.skip(1);
    let parts = wire::user_frame_parts(rest);
    &&& frame.len() > 0
    &&& frame[0] == wire::MSG_TYPE_USER
    &&& wire::user_frame_complete(rest)
    &&& parts.sender == sender
    &&& parts.recipient == recipient
    &&& aes256gcm_opened(key, parts.nonce, parts.encrypted) == Some(plaintext)
    &&& parts.timestamp == Some(timestamp)
}

/// Encrypts a message under the given nonce and puts it into a frame. Whoever has
/// the key reads the same message out of the frame again, as long as the two names
/// are short enough for their lengths to be written down.
pub fn encrypted_frame(
    keys: &SessionKeys,
    nonce: &[u8],
    sender: &str,
    recipient: &str,
    plaintext: &[u8],
    timestamp: i64,
) -> (r: Result<Vec<u8>, String>)
    requires
        nonce@.len() == wire::NONCE_LEN,
    ensures
        match encrypted_frame_of(
            keys.key@,
            nonce@,
            sender@,
            recipient@,
            plaintext@,
            timestamp as int,
        ) {
            Ok(frame) => r is Ok && r->Ok_0@ == frame,
            Err(e) => r is Err && r->Err_0@ == e,
        },
        r is Ok ==> aes256gcm_sealed(keys.key@, nonce@, plaintext@).len() == plaintext@.len()
            + TAG_LEN,
        r is Ok && encode_utf8(sender@).len() < 0x1_0000_0000 && encode_utf8(recipient@).len()
            < 0x1_0000_0000 ==> frame_carries(
            r->Ok_0@,
            keys.key@,
            sender@,
            recipient@,
            plaintext@,
            timestamp as int,
        ),
{
    if plaintext.len() > MAX_MESSAGE_SIZE {
        return Err("Message too large".to_owned());
    }
    match aes256gcm_encrypt(&keys.key, nonce, plaintext) {
        Ok(encrypted) => {
            let frame = wire::user_frame(
                sender,
                recipient,
                nonce,
                encrypted.as_slice(),
                timestamp,
            );
            proof {
                if encode_utf8(sender@).len() < 0x1_0000_0000 && encode_utf8(recipient@).len()
                    < 0x1_0000_0000 {
                    wire::law_user_frame_round_trip(
                        sender@,
                        recipient@,
                        nonce@,
                        encrypted@,
                        timestamp,
                    );
                }
            }
            Ok(frame)
        },
        Err(e) => Err(text::concat2("encryption error: ", e.as_str())),
    }
}

/// Encrypts a message under a fresh nonce and puts it into a frame. Whoever has the
/// key reads the same message out of the frame again, as long as the two names are
/// short enough for their lengths to be written down.
pub fn send_encrypted_message(
    keys: &SessionKeys,
    sender_id: &str,
    recipient_id: &str,
    plaintext: &[u8],
    timestamp: i64,
) -> (r: Result<Vec<u8>, String>)
    ensures
        r is Ok <==> plaintext@.len() <= MAX_MESSAGE_SIZE,
        r matches Err(e) ==> e@ == "Message too large"@,
        r matches Ok(frame) ==> exists|nonce: Seq<u8>|
            nonce.len() == wire::NONCE_LEN && Ok::<Seq<u8>, Seq<char>>(frame@)
                == #[trigger] encrypted_frame_of(
                keys.key@,
                nonce,
                sender_id@,
                recipient_id@,
                plaintext@,
                timestamp as int,
            ) && aes256gcm_sealed(keys.key@, nonce, plaintext@).len() == plaintext@.len()
                + TAG_LEN,
        r is Ok && encode_utf8(sender_id@).len() < 0x1_0000_0000 && encode_utf8(recipient_id@).len()
            < 0x1_0000_0000 ==> frame_carries(
            r->Ok_0@,
            keys.key@,
            sender_id@,
            recipient_id@,
            plaintext@,
            timestamp as int,
        ),
{
    let nonce = generate_nonce();
    encrypted_frame(keys, nonce.as_slice(), sender_id, recipient_id, plaintext, timestamp)
}

/// A connection starts with the 32 bytes of the client's public key. Whatever else comes
/// first is refused with the reason.
pub proof fn law_first_message(data: Seq<u8>, why: Seq<char>, secret: Seq<u8>)
    ensures
        data.len() == 32 ==> handshake_of(IncomingView::Binary(data), secret) == Ok::<
            (Seq<u8>, Seq<u8>),
            Seq<char>,
        >(
            (
                x25519_public(secret),
                hkdf_sha256(x25519_shared(secret, data), encode_utf8("relay-server"@)),
            ),
        ),
        data.len() != 32 ==> handshake_of(IncomingView::Binary(data), secret) == Err::<
            (Seq<u8>, Seq<u8>),
            Seq<char>,
        >("Invalid public key length: "@ + text::decimal(data.len())),
        handshake_of(IncomingView::Other, secret) == Err::<(Seq<u8>, Seq<u8>), Seq<char>>(
            "Expected binary"@,
        ),
        handshake_of(IncomingView::Failed(why), secret) == Err::<(Seq<u8>, Seq<u8>), Seq<char>>(
            "WebSocket error: "@ + why,
        ),
        handshake_of(IncomingView::End, secret) == Err::<(Seq<u8>, Seq<u8>), Seq<char>>(
            "No message received"@,
        ),
{
}

/// A message of up to 65536 bytes is encrypted whole, and a longer one not at all.
pub proof fn law_size_limit(
    key: Seq<u8>,
    nonce: Seq<u8>,
    sender: Seq<char>,
    recipient: Seq<char>,
    plaintext: Seq<u8>,
    timestamp: int,
)
    ensures
        plaintext.len() > 65536 ==> encrypted_frame_of(
            key,
            nonce,
            sender,
            recipient,
            plaintext,
            timestamp,
        ) == Err::<Seq<u8>, Seq<char>>("Message too large"@),
        plaintext.len() <= 65536 ==> encrypted_frame_of(
            key,
            nonce,
            sender,
            recipient,
            plaintext,
            timestamp,
        ) == Ok::<Seq<u8>, Seq<char>>(
            wire::user_frame_of(
                sender,
                recipient,
                nonce,
                aes256gcm_sealed(key, nonce, plaintext),
                timestamp,
            ),
        ),
{
}

} // verus!
