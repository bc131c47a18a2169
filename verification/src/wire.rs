//! The binary frames that the server and its clients exchange.

use crate::text;
use vstd::prelude::*;
use vstd::utf8::*;

verus! {

/// The first byte of a message: what the message is.
pub const MSG_TYPE_USER: u8 = 0x01;

pub const MSG_TYPE_SYSTEM: u8 = 0x02;

pub const MSG_TYPE_COMMAND: u8 = 0x03;

pub const MSG_TYPE_AUTH: u8 = 0x04;

/// The number of bytes of a nonce.
pub const NONCE_LEN: usize = 12;

/// The low 32 bits of `n`, most significant byte first.
#[verifier::opaque]
pub open spec fn be32(n: int) -> Seq<u8> {
    seq![
        (n / 0x100_0000 % 0x100) as u8,
        (n / 0x1_0000 % 0x100) as u8,
        (n / 0x100 % 0x100) as u8,
        (n % 0x100) as u8,
    ]
}

/// The number whose four bytes stand at index `i`, most significant byte first.
#[verifier::opaque]
pub open spec fn u32_at(s: Seq<u8>, i: int) -> int {
    s[i] * 0x100_0000 + s[i + 1] * 0x1_0000 + s[i + 2] * 0x100 + s[i + 3]
}

/// The two's complement of a signed number of 64 bits.
pub open spec fn unsigned(t: int) -> int {
    if t < 0 {
        t + 0x1_0000_0000_0000_0000
    } else {
        t
    }
}

/// The eight bytes of a signed number, most significant byte first.
#[verifier::opaque]
pub open spec fn be64(t: int) -> Seq<u8> {
    be32(unsigned(t) / 0x1_0000_0000) + be32(unsigned(t))
}

/// The signed number whose eight bytes stand at index `i`.
#[verifier::opaque]
pub open spec fn i64_at(s: Seq<u8>, i: int) -> int {
    let u = u32_at(s, i) * 0x1_0000_0000 + u32_at(s, i + 4);
    if u >= 0x8000_0000_0000_0000 {
        u - 0x1_0000_0000_0000_0000
    } else {
        u
    }
}

/// Four bytes hold the low 32 bits.
pub proof fn lemma_be32(n: int)
    ensures
        be32(n).len() == 4,
        be32(n % 0x1_0000_0000) == be32(n),
{
    reveal(be32);
    let q = n / 0x1_0000_0000;
    let m = n % 0x1_0000_0000;
    assert(n == q * 0x1_0000_0000 + m);
    assert(n / 0x100_0000 == q * 0x100 + m / 0x100_0000);
    assert(n / 0x1_0000 == q * 0x1_0000 + m / 0x1_0000);
    assert(n / 0x100 == q * 0x100_0000 + m / 0x100);
    assert((q * 0x100 + m / 0x100_0000) % 0x100 == m / 0x100_0000 % 0x100);
    assert((q * 0x1_0000 + m / 0x1_0000) % 0x100 == m / 0x1_0000 % 0x100);
    assert((q * 0x100_0000 + m / 0x100) % 0x100 == m / 0x100 % 0x100);
    assert(n % 0x100 == m % 0x100);
    assert(be32(m) =~= be32(n));
}

/// A number of 32 bits that stands among other bytes is read back as it was written.
pub proof fn lemma_be32_read(before: Seq<u8>, n: int, after: Seq<u8>)
    requires
        0 <= n < 0x1_0000_0000,
    ensures
        u32_at(before + be32(n) + after, before.len() as int) == n,
{
    reveal(be32);
    reveal(u32_at);
    let s = before + be32(n) + after;
    let k = before.len() as int;
    assert(s[k] == be32(n)[0]);
    assert(s[k + 1] == be32(n)[1]);
    assert(s[k + 2] == be32(n)[2]);
    assert(s[k + 3] == be32(n)[3]);
}

proof fn lemma_u32_at_bound(s: Seq<u8>, i: int)
    ensures
        0 <= u32_at(s, i) < 0x1_0000_0000,
{
    reveal(u32_at);
}

/// Eight bytes hold a signed number.
pub proof fn lemma_be64(t: int)
    ensures
        be64(t).len() == 8,
{
    reveal(be64);
    lemma_be32(unsigned(t) / 0x1_0000_0000);
    lemma_be32(unsigned(t));
}

/// A signed number that stands among other bytes is read back as it was written.
pub proof fn lemma_be64_read(before: Seq<u8>, t: int, after: Seq<u8>)
    requires
        -0x8000_0000_0000_0000 <= t < 0x8000_0000_0000_0000,
    ensures
        i64_at(before + be64(t) + after, before.len() as int) == t,
{
    reveal(be64);
    reveal(i64_at);
    let u = unsigned(t);
    let high = u / 0x1_0000_0000;
    let low = u % 0x1_0000_0000;
    lemma_be32(u);
    lemma_be32(high);
    let s = before + be64(t) + after;
    lemma_be32_read(before, high, be32(low) + after);
    assert(s =~= before + be32(high) + (be32(low) + after));
    lemma_be32_read(before + be32(high), low, after);
    assert(s =~= (before + be32(high)) + be32(low) + after);
}

/// Puts the low 32 bits of `n` behind the bytes.
pub fn put_u32(out: &mut Vec<u8>, n: u64)
    ensures
        final(out)@ == old(out)@ + be32(n as int),
{
    reveal(be32);
    out.push((n / 0x100_0000 % 0x100) as u8);
    out.push((n / 0x1_0000 % 0x100) as u8);
    out.push((n / 0x100 % 0x100) as u8);
    out.push((n % 0x100) as u8);
    assert(out@ =~= old(out)@ + be32(n as int));
}

/// Puts the eight bytes of `t` behind the bytes.
pub fn put_i64(out: &mut Vec<u8>, t: i64)
    ensures
        final(out)@ == old(out)@ + be64(t as int),
{
    reveal(be64);
    let u: u64 = if t >= 0 {
        t as u64
    } else {
        (t + 0x7fff_ffff_ffff_ffff + 1) as u64 + 0x8000_0000_0000_0000
    };
    put_u32(out, u / 0x1_0000_0000);
    put_u32(out, u);
    assert(out@ =~= old(out)@ + be64(t as int));
}

/// Puts a slice behind the bytes.
pub fn put_bytes(out: &mut Vec<u8>, bytes: &[u8])
    ensures
        final(out)@ == old(out)@ + bytes@,
{
    let mut i: usize = 0;
    while i < bytes.len()
        invariant
            i <= bytes@.len(),
            out@ == old(out)@ + bytes@.take(i as int),
        decreases bytes@.len() - i,
    {
        out.push(bytes[i]);
        assert(bytes@.take(i + 1) =~= bytes@.take(i as int).push(bytes@[i as int]));
        i = i + 1;
    }
    assert(bytes@.take(bytes@.len() as int) =~= bytes@);
}

/// Copies the bytes from index `from` up to index `to`.
pub fn copy_range(bytes: &[u8], from: usize, to: usize) -> (r: Vec<u8>)
    requires
        from <= to <= bytes@.len(),
    ensures
        r@ == bytes@.subrange(from as int, to as int),
{
    let mut r: Vec<u8> = Vec::new();
    let mut i: usize = from;
    while i < to
        invariant
            from <= i <= to <= bytes@.len(),
            r@ == bytes@.subrange(from as int, i as int),
        decreases to - i,
    {
        r.push(bytes[i]);
        assert(bytes@.subrange(from as int, i + 1) =~= bytes@.subrange(from as int, i as int).push(
            bytes@[i as int],
        ));
        i = i + 1;
    }
    r
}

/// Reads the number whose four bytes stand at index `i`.
pub fn read_u32(bytes: &[u8], i: usize) -> (r: u32)
    requires
        i + 4 <= bytes@.len(),
    ensures
        r == u32_at(bytes@, i as int),
{
    reveal(u32_at);
    let len = bytes.len();
    assert(i + 4 <= len);
    bytes[i] as u32 * 0x100_0000 + bytes[i + 1] as u32 * 0x1_0000 + bytes[i + 2] as u32 * 0x100
        + bytes[i + 3] as u32
}

/// Reads the signed number whose eight bytes stand at index `i`.
pub fn read_i64(bytes: &[u8], i: usize) -> (r: i64)
    requires
        i + 8 <= bytes@.len(),
    ensures
        r == i64_at(bytes@, i as int),
{
    reveal(i64_at);
    let len = bytes.len();
    assert(i + 8 <= len);
    let u: u64 = read_u32(bytes, i) as u64 * 0x1_0000_0000 + read_u32(bytes, i + 4) as u64;
    if u >= 0x8000_0000_0000_0000 {
        (u - 0x8000_0000_0000_0000) as i64 - 0x7fff_ffff_ffff_ffff - 1
    } else {
        u as i64
    }
}

/// The frame of a message from the server itself: the type, the length of the
/// text in bytes, the text.
pub open spec fn system_frame_of(text: Seq<char>) -> Seq<u8> {
    seq![MSG_TYPE_SYSTEM] + be32(encode_utf8(text).len() as int) + encode_utf8(text)
}

/// Builds the frame of a message from the server itself.
pub fn system_frame(text: &str) -> (r: Vec<u8>)
    ensures
        r@ == system_frame_of(text@),
{
    let bytes = text.as_bytes();
    let mut data: Vec<u8> = Vec::new();
    data.push(MSG_TYPE_SYSTEM);
    put_u32(&mut data, bytes.len() as u64);
    put_bytes(&mut data, bytes);
    assert(data@ =~= system_frame_of(text@));
    data
}

/// The frame of a user's message: the type, then the sender, the recipient, the
/// nonce, the encrypted text and the time. What has no fixed length stands behind
/// its length.
pub open spec fn user_frame_of(
    sender: Seq<char>,
    recipient: Seq<char>,
    nonce: Seq<u8>,
    encrypted: Seq<u8>,
    timestamp: int,
) -> Seq<u8> {
    let s = encode_utf8(sender);
    let r = encode_utf8(recipient);
    seq![MSG_TYPE_USER] + be32(s.len() as int) + s + be32(r.len() as int) + r + nonce + be32(
        encrypted.len() as int,
    ) + encrypted + be64(timestamp)
}

/// Builds the frame of a user's message.
pub fn user_frame(
    sender: &str,
    recipient: &str,
    nonce: &[u8],
    encrypted: &[u8],
    timestamp: i64,
) -> (r: Vec<u8>)
    ensures
        r@ == user_frame_of(sender@, recipient@, nonce@, encrypted@, timestamp as int),
{
    let mut data: Vec<u8> = Vec::new();
    data.push(MSG_TYPE_USER);
    let sender_bytes = sender.as_bytes();
    put_u32(&mut data, sender_bytes.len() as u64);
    put_bytes(&mut data, sender_bytes);
    let recipient_bytes = recipient.as_bytes();
    put_u32(&mut data, recipient_bytes.len() as u64);
    put_bytes(&mut data, recipient_bytes);
    put_bytes(&mut data, nonce);
    put_u32(&mut data, encrypted.len() as u64);
    put_bytes(&mut data, encrypted);
    put_i64(&mut data, timestamp);
    assert(data@ =~= user_frame_of(sender@, recipient@, nonce@, encrypted@, timestamp as int));
    data
}

/// A user's message as it came over the wire.
pub struct UserFrame {
    pub sender: String,
    pub recipient: String,
    pub nonce: Vec<u8>,
    pub encrypted: Vec<u8>,
    pub timestamp: Option<i64>,
}

pub struct UserFrameView {
    pub sender: Seq<char>,
    pub recipient: Seq<char>,
    pub nonce: Seq<u8>,
    pub encrypted: Seq<u8>,
    pub timestamp: Option<int>,
}

impl View for UserFrame {
    type V = UserFrameView;

    open spec fn view(&self) -> UserFrameView {
        UserFrameView {
            sender: self.sender@,
            recipient: self.recipient@,
            nonce: self.nonce@,
            encrypted: self.encrypted@,
            timestamp: match self.timestamp {
                Some(t) => Some(t as int),
                None => None,
            },
        }
    }
}

/// Where the recipient's length stands, behind the type byte.
pub open spec fn recipient_at(rest: Seq<u8>) -> int {
    4 + u32_at(rest, 0)
}

/// Where the nonce stands, behind the type byte.
pub open spec fn nonce_at(rest: Seq<u8>) -> int {
    recipient_at(rest) + 4 + u32_at(rest, recipient_at(rest))
}

/// Where the encrypted text stands, behind the type byte.
pub open spec fn encrypted_at(rest: Seq<u8>) -> int {
    nonce_at(rest) + NONCE_LEN + 4
}

/// Where the time stands, behind the type byte.
pub open spec fn timestamp_at(rest: Seq<u8>) -> int {
    encrypted_at(rest) + u32_at(rest, nonce_at(rest) + NONCE_LEN)
}

/// Whether the bytes behind the type byte hold every part of a user's message.
/// The time may be missing.
pub open spec fn user_frame_complete(rest: Seq<u8>) -> bool {
    &&& rest.len() >= 4
    &&& rest.len() >= recipient_at(rest) + 4
    &&& rest.len() >= encrypted_at(rest)
    &&& rest.len() >= timestamp_at(rest)
}

/// What a complete message holds.
pub open spec fn user_frame_parts(rest: Seq<u8>) -> UserFrameView {
    UserFrameView {
        sender: text::utf8_or_empty(rest.subrange(4, recipient_at(rest))),
        recipient: text::utf8_or_empty(rest.subrange(recipient_at(rest) + 4, nonce_at(rest))),
        nonce: rest.subrange(nonce_at(rest), nonce_at(rest) + NONCE_LEN),
        encrypted: rest.subrange(encrypted_at(rest), timestamp_at(rest)),
        timestamp: if rest.len() >= timestamp_at(rest) + 8 {
            Some(i64_at(rest, timestamp_at(rest)))
        } else {
            None
        },
    }
}

/// Tells whether the bytes behind the type byte hold every part of a user's message.
pub fn is_user_frame_complete(rest: &[u8]) -> (r: bool)
    ensures
        r == user_frame_complete(rest@),
{
    proof {
        lemma_u32_at_bound(rest@, 0);
        lemma_u32_at_bound(rest@, recipient_at(rest@));
        lemma_u32_at_bound(rest@, nonce_at(rest@) + NONCE_LEN);
    }
    if rest.len() < 4 {
        return false;
    }
    let sender_len = read_u32(rest, 0) as usize;
    if rest.len() - 4 < sender_len {
        return false;
    }
    let recipient_len_at: usize = 4 + sender_len;
    if rest.len() - recipient_len_at < 4 {
        return false;
    }
    let recipient_len = read_u32(rest, recipient_len_at) as usize;
    if rest.len() - recipient_len_at - 4 < recipient_len {
        return false;
    }
    let nonce_start: usize = recipient_len_at + 4 + recipient_len;
    if rest.len() - nonce_start < NONCE_LEN + 4 {
        return false;
    }
    let encrypted_len = read_u32(rest, nonce_start + NONCE_LEN) as usize;
    rest.len() - nonce_start - NONCE_LEN - 4 >= encrypted_len
}

/// Takes a complete message apart.
pub fn parse_user_frame(rest: &[u8]) -> (r: UserFrame)
    requires
        user_frame_complete(rest@),
    ensures
        r@ == user_frame_parts(rest@),
        r.nonce@.len() == NONCE_LEN,
{
    proof {
        lemma_u32_at_bound(rest@, 0);
        lemma_u32_at_bound(rest@, recipient_at(rest@));
        lemma_u32_at_bound(rest@, nonce_at(rest@) + NONCE_LEN);
    }
    let len = rest.len();
    assert(timestamp_at(rest@) <= len);
    let recipient_len_at: usize = 4 + read_u32(rest, 0) as usize;
    let sender = text::decode_or_empty(copy_range(rest, 4, recipient_len_at));
    let nonce_start: usize = recipient_len_at + 4 + read_u32(rest, recipient_len_at) as usize;
    let recipient = text::decode_or_empty(copy_range(rest, recipient_len_at + 4, nonce_start));
    let nonce = copy_range(rest, nonce_start, nonce_start + NONCE_LEN);
    let encrypted_start: usize = nonce_start + NONCE_LEN + 4;
    let end: usize = encrypted_start + read_u32(rest, nonce_start + NONCE_LEN) as usize;
    let encrypted = copy_range(rest, encrypted_start, end);
    let timestamp = if rest.len() - end >= 8 {
        Some(read_i64(rest, end))
    } else {
        None
    };
    UserFrame { sender, recipient, nonce, encrypted, timestamp }
}

/// A user's message that was put into a frame comes out of it unchanged: the same
/// sender, recipient, nonce, encrypted text and time.
pub proof fn law_user_frame_round_trip(
    sender: Seq<char>,
    recipient: Seq<char>,
    nonce: Seq<u8>,
    encrypted: Seq<u8>,
    timestamp: i64,
)
    requires
        encode_utf8(sender).len() < 0x1_0000_0000,
        encode_utf8(recipient).len() < 0x1_0000_0000,
        nonce.len() == NONCE_LEN,
        encrypted.len() < 0x1_0000_0000,
    ensures
        ({
            let frame = user_frame_of(sender, recipient, nonce, encrypted, timestamp as int);
            &&& frame[0] == MSG_TYPE_USER
            &&& user_frame_complete(frame.skip(1))
            &&& user_frame_parts(frame.skip(1)) == UserFrameView {
                sender,
                recipient,
                nonce,
                encrypted,
                timestamp: Some(timestamp as int),
            }
        }),
{
    let s = encode_utf8(sender);
    let r = encode_utf8(recipient);
    let frame = user_frame_of(sender, recipient, nonce, encrypted, timestamp as int);
    let rest = frame.skip(1);
    let len_s = be32(s.len() as int);
    let len_r = be32(r.len() as int);
    let len_e = be32(encrypted.len() as int);
    let time = be64(timestamp as int);
    lemma_be32(s.len() as int);
    lemma_be32(r.len() as int);
    lemma_be32(encrypted.len() as int);
    lemma_be64(timestamp as int);
    encode_utf8_valid_utf8(sender);
    encode_utf8_valid_utf8(recipient);
    encode_utf8_decode_utf8(sender);
    encode_utf8_decode_utf8(recipient);
    let none = Seq::<u8>::empty();
    let after_r = nonce + len_e + encrypted + time;
    let after_s = len_r + r + after_r;
    assert(rest =~= none + len_s + (s + after_s));
    lemma_be32_read(none, s.len() as int, s + after_s);
    let a: int = 4 + s.len() as int;
    assert(recipient_at(rest) == a);
    assert(rest.subrange(4, a) =~= s);
    assert(rest =~= (len_s + s) + len_r + (r + after_r));
    lemma_be32_read(len_s + s, r.len() as int, r + after_r);
    let b: int = a + 4 + r.len();
    assert(nonce_at(rest) == b);
    assert(rest.subrange(a + 4, b) =~= r);
    let to_nonce = len_s + s + len_r + r;
    assert(rest =~= (to_nonce + nonce) + len_e + (encrypted + time));
    lemma_be32_read(to_nonce + nonce, encrypted.len() as int, encrypted + time);
    assert(rest.subrange(b, b + NONCE_LEN) =~= nonce);
    let c: int = b + NONCE_LEN + 4;
    let d: int = c + encrypted.len();
    assert(encrypted_at(rest) == c);
    assert(timestamp_at(rest) == d);
    assert(rest.subrange(c, d) =~= encrypted);
    assert(rest =~= (to_nonce + nonce + len_e + encrypted) + time + none);
    lemma_be64_read(to_nonce + nonce + len_e + encrypted, timestamp as int, none);
}

/// Numbers stand most significant byte first: four bytes for the low 32 bits, and eight
/// for a signed number, in two's complement.
pub proof fn law_numbers(n: int, t: i64)
    requires
        0 <= n < 0x1_0000_0000,
    ensures
        be32(n).len() == 4,
        be32(n)[0] * 0x100_0000 + be32(n)[1] * 0x1_0000 + be32(n)[2] * 0x100 + be32(n)[3] == n,
        be64(t as int).len() == 8,
        t >= 0 ==> be64(t as int) == be32(t as int / 0x1_0000_0000) + be32(
            t as int % 0x1_0000_0000,
        ),
        t < 0 ==> be64(t as int) == be32((t + 0x1_0000_0000_0000_0000) / 0x1_0000_0000) + be32(
            (t + 0x1_0000_0000_0000_0000) % 0x1_0000_0000,
        ),
{
    reveal(be64);
    let none = Seq::<u8>::empty();
    lemma_be32(n);
    lemma_be32_read(none, n, none);
    assert(none + be32(n) + none =~= be32(n));
    reveal(u32_at);
    lemma_be64(t as int);
    lemma_be32(unsigned(t as int));
}

/// A message of the server is the byte 2, the length of its text in four bytes, and the
/// text in UTF-8.
pub proof fn law_system_frame(text: Seq<char>)
    ensures
        ({
            let frame = system_frame_of(text);
            let bytes = encode_utf8(text);
            &&& frame.len() == 5 + bytes.len()
            &&& frame[0] == 2
            &&& frame.subrange(1, 5) == be32(bytes.len() as int)
            &&& frame.skip(5) == bytes
        }),
{
    let frame = system_frame_of(text);
    let bytes = encode_utf8(text);
    lemma_be32(bytes.len() as int);
    assert(frame.subrange(1, 5) =~= be32(bytes.len() as int));
    assert(frame.skip(5) =~= bytes);
}

/// A message of a user is the byte 1, then the sender and the recipient in UTF-8, each
/// behind its length, the nonce, the encrypted text behind its length, and the time.
pub proof fn law_user_frame(
    sender: Seq<char>,
    recipient: Seq<char>,
    nonce: Seq<u8>,
    encrypted: Seq<u8>,
    timestamp: i64,
)
    requires
        nonce.len() == 12,
    ensures
        ({
            let frame = user_frame_of(sender, recipient, nonce, encrypted, timestamp as int);
            let s = encode_utf8(sender);
            let r = encode_utf8(recipient);
            let a: int = 5 + s.len() as int;
            let b: int = a + 4 + r.len();
            let e: int = b + 12 + 4 + encrypted.len();
            &&& frame.len() == e + 8
            &&& frame[0] == 1
            &&& frame.subrange(1, 5) == be32(s.len() as int)
            &&& frame.subrange(5, a) == s
            &&& frame.subrange(a, a + 4) == be32(r.len() as int)
            &&& frame.subrange(a + 4, b) == r
            &&& frame.subrange(b, b + 12) == nonce
            &&& frame.subrange(b + 12, b + 16) == be32(encrypted.len() as int)
            &&& frame.subrange(b + 16, e) == encrypted
            &&& frame.skip(e) == be64(timestamp as int)
        }),
{
    let frame = user_frame_of(sender, recipient, nonce, encrypted, timestamp as int);
    let s = encode_utf8(sender);
    let r = encode_utf8(recipient);
    let a: int = 5 + s.len() as int;
    let b: int = a + 4 + r.len();
    let e: int = b + 12 + 4 + encrypted.len();
    lemma_be32(s.len() as int);
    lemma_be32(r.len() as int);
    lemma_be32(encrypted.len() as int);
    lemma_be64(timestamp as int);
    assert(frame.subrange(1, 5) =~= be32(s.len() as int));
    assert(frame.subrange(5, a) =~= s);
    assert(frame.subrange(a, a + 4) =~= be32(r.len() as int));
    assert(frame.subrange(a + 4, b) =~= r);
    assert(frame.subrange(b, b + 12) =~= nonce);
    assert(frame.subrange(b + 12, b + 16) =~= be32(encrypted.len() as int));
    assert(frame.subrange(b + 16, e) =~= encrypted);
    assert(frame.skip(e) =~= be64(timestamp as int));
}

/// A user's message is read the same whether its time is there or not, but for the time,
/// and what stands behind the time makes no difference. `rest` is what stands behind the
/// type byte, up to the time.
pub proof fn law_time_may_be_missing(rest: Seq<u8>, timestamp: i64, more: Seq<u8>)
    requires
        user_frame_complete(rest),
        rest.len() == timestamp_at(rest),
    ensures
        user_frame_parts(rest).timestamp is None,
        user_frame_complete(rest + be64(timestamp as int) + more),
        user_frame_parts(rest + be64(timestamp as int) + more) == (UserFrameView {
            timestamp: Some(timestamp as int),
            ..user_frame_parts(rest)
        }),
{
    let all = rest + be64(timestamp as int) + more;
    lemma_be64(timestamp as int);
    lemma_be64_read(rest, timestamp as int, more);
    lemma_u32_at_bound(rest, 0);
    lemma_u32_at_bound(rest, recipient_at(rest));
    lemma_u32_at_bound(rest, nonce_at(rest) + NONCE_LEN);
    reveal(u32_at);
    assert(recipient_at(all) == recipient_at(rest));
    assert(nonce_at(all) == nonce_at(rest));
    assert(timestamp_at(all) == timestamp_at(rest));
    assert(all.subrange(4, recipient_at(rest)) =~= rest.subrange(4, recipient_at(rest)));
    assert(all.subrange(recipient_at(rest) + 4, nonce_at(rest)) =~= rest.subrange(
        recipient_at(rest) + 4,
        nonce_at(rest),
    ));
    assert(all.subrange(nonce_at(rest), nonce_at(rest) + NONCE_LEN) =~= rest.subrange(
        nonce_at(rest),
        nonce_at(rest) + NONCE_LEN,
    ));
    assert(all.subrange(encrypted_at(rest), timestamp_at(rest)) =~= rest.subrange(
        encrypted_at(rest),
        timestamp_at(rest),
    ));
}

/// A user's message is read part by part, whatever its parts hold: the names as UTF-8, or as
/// empty where they are none, the nonce and the encrypted text as they stand, and the time
/// where eight more bytes are there. With the encrypted text it is complete.
pub proof fn law_user_frame_read(
    s: Seq<u8>,
    r: Seq<u8>,
    nonce: Seq<u8>,
    encrypted: Seq<u8>,
    more: Seq<u8>,
)
    requires
        s.len() < 0x1_0000_0000,
        r.len() < 0x1_0000_0000,
        nonce.len() == 12,
        encrypted.len() < 0x1_0000_0000,
    ensures
        ({
            let rest = be32(s.len() as int) + s + be32(r.len() as int) + r + nonce + be32(
                encrypted.len() as int,
            ) + encrypted + more;
            &&& user_frame_complete(rest)
            &&& user_frame_parts(rest).sender == text::utf8_or_empty(s)
            &&& user_frame_parts(rest).recipient == text::utf8_or_empty(r)
            &&& user_frame_parts(rest).nonce == nonce
            &&& user_frame_parts(rest).encrypted == encrypted
            &&& more.len() < 8 ==> user_frame_parts(rest).timestamp is None
            &&& more.len() >= 8 ==> user_frame_parts(rest).timestamp == Some(i64_at(more, 0))
        }),
{
    let len_s = be32(s.len() as int);
    let len_r = be32(r.len() as int);
    let len_e = be32(encrypted.len() as int);
    let rest = len_s + s + len_r + r + nonce + len_e + encrypted + more;
    lemma_be32(s.len() as int);
    lemma_be32(r.len() as int);
    lemma_be32(encrypted.len() as int);
    let none = Seq::<u8>::empty();
    let after_r = nonce + len_e + encrypted + more;
    let after_s = len_r + r + after_r;
    assert(rest =~= none + len_s + (s + after_s));
    lemma_be32_read(none, s.len() as int, s + after_s);
    let a: int = 4 + s.len() as int;
    assert(recipient_at(rest) == a);
    assert(rest.subrange(4, a) =~= s);
    assert(rest =~= (len_s + s) + len_r + (r + after_r));
    lemma_be32_read(len_s + s, r.len() as int, r + after_r);
    let b: int = a + 4 + r.len();
    assert(nonce_at(rest) == b);
    assert(rest.subrange(a + 4, b) =~= r);
    let to_nonce = len_s + s + len_r + r;
    assert(rest =~= (to_nonce + nonce) + len_e + (encrypted + more));
    lemma_be32_read(to_nonce + nonce, encrypted.len() as int, encrypted + more);
    assert(rest.subrange(b, b + NONCE_LEN) =~= nonce);
    let c: int = b + NONCE_LEN + 4;
    let d: int = c + encrypted.len();
    assert(encrypted_at(rest) == c);
    assert(timestamp_at(rest) == d);
    assert(rest.subrange(c, d) =~= encrypted);
    if more.len() >= 8 {
        reveal(i64_at);
        reveal(u32_at);
        assert(forall|i: int| 0 <= i < 8 ==> rest[d + i] == #[trigger] more[i]);
        assert(i64_at(rest, d) == i64_at(more, 0));
    }
}

} // verus!
