use aes_gcm::aead::{Aead, KeyInit};
use relay_server::crypto::{
    client_key, encrypted_frame, handshake, send_encrypted_message, session_keys, ws_handshake,
    Incoming, SessionKeys, KEY_INFO, MAX_MESSAGE_SIZE,
};
use relay_server::wire::{is_user_frame_complete, parse_user_frame, user_frame};
use x25519_dalek::{PublicKey, StaticSecret};

fn derived(shared: &[u8; 32]) -> [u8; 32] {
    let mut key = [0u8; 32];
    hkdf::Hkdf::<sha2::Sha256>::new(None, shared).expand(b"relay-server", &mut key).unwrap();
    key
}

fn open(key: &[u8; 32], nonce: &[u8], sealed: &[u8]) -> Option<Vec<u8>> {
    aes_gcm::Aes256Gcm::new(aes_gcm::Key::<aes_gcm::Aes256Gcm>::from_slice(key))
        .decrypt(aes_gcm::Nonce::from_slice(nonce), sealed)
        .ok()
}

#[test]
fn both_sides_derive_the_same_key() {
    let theirs = StaticSecret::from([7u8; 32]);
    let first = Incoming::Binary(PublicKey::from(&theirs).as_bytes().to_vec());
    match ws_handshake(&first) {
        Ok((public, keys)) => {
            let shared = theirs.diffie_hellman(&PublicKey::from(public));
            assert_eq!(keys.key, derived(shared.as_bytes()));
            assert_ne!(keys.key, *shared.as_bytes());
        }
        Err(e) => panic!("{}", e),
    }
}

#[test]
fn a_fresh_secret_each_time() {
    let first = Incoming::Binary(vec![9u8; 32]);
    let a = ws_handshake(&first).ok().unwrap();
    let b = ws_handshake(&first).ok().unwrap();
    assert_ne!(a.0, b.0);
    assert_ne!(a.1.key, b.1.key);
}

#[test]
fn handshake_under_a_known_secret() {
    let ours = [1u8; 32];
    let theirs = StaticSecret::from([2u8; 32]);
    let first = Incoming::Binary(PublicKey::from(&theirs).as_bytes().to_vec());
    let (public, keys) = handshake(&first, &ours).ok().unwrap();
    assert_eq!(public, *PublicKey::from(&StaticSecret::from(ours)).as_bytes());
    let shared = StaticSecret::from(ours).diffie_hellman(&PublicKey::from(&theirs));
    assert_eq!(keys.key, derived(shared.as_bytes()));
}

#[test]
fn the_first_message_must_be_a_key() {
    let error = |first: Incoming| ws_handshake(&first).err().unwrap();
    assert_eq!(error(Incoming::End), "No message received");
    assert_eq!(error(Incoming::Failed("reset".to_string())), "WebSocket error: reset");
    assert_eq!(error(Incoming::Other), "Expected binary");
    assert_eq!(error(Incoming::Binary(vec![0; 31])), "Invalid public key length: 31");
    assert_eq!(error(Incoming::Binary(vec![])), "Invalid public key length: 0");
    assert_eq!(error(Incoming::Binary(vec![0; 1000])), "Invalid public key length: 1000");
    let key: Vec<u8> = (0..32).collect();
    assert_eq!(client_key(&Incoming::Binary(key.clone())).ok().unwrap().to_vec(), key);
}

#[test]
fn session_key_is_bound_to_its_purpose() {
    assert_eq!(KEY_INFO, "relay-server");
    let shared = [5u8; 32];
    assert_eq!(session_keys(&shared).ok().unwrap().key, derived(&shared));
}

#[test]
fn an_encrypted_frame_opens_again() {
    let keys = SessionKeys { key: [4u8; 32] };
    let nonce = [6u8; 12];
    let frame = encrypted_frame(&keys, &nonce, "alice", "bob", b"hello", 1234).ok().unwrap();
    assert!(is_user_frame_complete(&frame[1..]));
    let parts = parse_user_frame(&frame[1..]);
    assert_eq!(frame[0], 1);
    assert_eq!(parts.sender, "alice");
    assert_eq!(parts.recipient, "bob");
    assert_eq!(parts.timestamp, Some(1234));
    assert_eq!(parts.nonce, nonce.to_vec());
    assert_eq!(parts.encrypted.len(), 5 + 16);
    assert_eq!(open(&keys.key, &parts.nonce, &parts.encrypted), Some(b"hello".to_vec()));
    assert_eq!(open(&[0u8; 32], &parts.nonce, &parts.encrypted), None);
    assert_eq!(frame, user_frame("alice", "bob", &nonce, &parts.encrypted, 1234));
}

#[test]
fn a_fresh_nonce_each_time() {
    let keys = SessionKeys { key: [4u8; 32] };
    let a = send_encrypted_message(&keys, "a", "b", b"same", 1).ok().unwrap();
    let b = send_encrypted_message(&keys, "a", "b", b"same", 1).ok().unwrap();
    let (a, b) = (parse_user_frame(&a[1..]), parse_user_frame(&b[1..]));
    assert_ne!(a.nonce, b.nonce);
    assert_ne!(a.encrypted, b.encrypted);
    assert_eq!(a.encrypted.len(), 4 + 16);
    assert_eq!(b.encrypted.len(), 4 + 16);
    assert_eq!(open(&keys.key, &a.nonce, &a.encrypted), Some(b"same".to_vec()));
    assert_eq!(open(&keys.key, &b.nonce, &b.encrypted), Some(b"same".to_vec()));
}

#[test]
fn a_message_that_is_too_large_is_refused() {
    let keys = SessionKeys { key: [4u8; 32] };
    assert_eq!(MAX_MESSAGE_SIZE, 64 * 1024);
    let largest = vec![1u8; MAX_MESSAGE_SIZE];
    assert!(send_encrypted_message(&keys, "a", "b", &largest, 1).is_ok());
    let larger = vec![1u8; MAX_MESSAGE_SIZE + 1];
    assert_eq!(
        send_encrypted_message(&keys, "a", "b", &larger, 1).err().unwrap(),
        "Message too large"
    );
}
