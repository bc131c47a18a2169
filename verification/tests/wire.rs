use relay_server::wire::{
    copy_range, is_user_frame_complete, parse_user_frame, put_bytes, put_i64, put_u32, read_i64,
    read_u32, system_frame, user_frame, MSG_TYPE_AUTH, MSG_TYPE_COMMAND, MSG_TYPE_SYSTEM,
    MSG_TYPE_USER, NONCE_LEN,
};

#[test]
fn message_types() {
    assert_eq!([MSG_TYPE_USER, MSG_TYPE_SYSTEM, MSG_TYPE_COMMAND, MSG_TYPE_AUTH], [1, 2, 3, 4]);
    assert_eq!(NONCE_LEN, 12);
}

#[test]
fn system_frame_holds_type_length_and_text() {
    assert_eq!(system_frame("ab"), vec![2, 0, 0, 0, 2, b'a', b'b']);
    assert_eq!(system_frame("я"), vec![2, 0, 0, 0, 2, 0xd1, 0x8f]);
    assert_eq!(system_frame(""), vec![2, 0, 0, 0, 0]);
}

#[test]
fn numbers_are_big_endian() {
    let mut out = Vec::new();
    put_u32(&mut out, 0x01020304);
    put_i64(&mut out, -2);
    put_i64(&mut out, 0x0102030405060708);
    put_bytes(&mut out, &[9, 9]);
    let mut expected = vec![1, 2, 3, 4];
    expected.extend_from_slice(&(-2i64).to_be_bytes());
    expected.extend_from_slice(&[1, 2, 3, 4, 5, 6, 7, 8, 9, 9]);
    assert_eq!(out, expected);
    assert_eq!(read_u32(&out, 0), 0x01020304);
    assert_eq!(read_i64(&out, 4), -2);
    assert_eq!(read_i64(&out, 12), 0x0102030405060708);
    assert_eq!(copy_range(&out, 1, 3), vec![2, 3]);
}

#[test]
fn lengths_keep_their_low_bits() {
    let mut out = Vec::new();
    put_u32(&mut out, 0x1_0000_0005);
    assert_eq!(out, vec![0, 0, 0, 5]);
}

#[test]
fn extreme_times_are_kept() {
    for t in [i64::MIN, -1, 0, 1, i64::MAX] {
        let mut out = Vec::new();
        put_i64(&mut out, t);
        assert_eq!(out, t.to_be_bytes().to_vec());
        assert_eq!(read_i64(&out, 0), t);
    }
}

#[test]
fn user_frame_layout() {
    let nonce: Vec<u8> = (1..13).collect();
    let frame = user_frame("a", "bc", &nonce, &[7, 8, 9], 5);
    let mut expected = vec![1, 0, 0, 0, 1, b'a', 0, 0, 0, 2, b'b', b'c'];
    expected.extend_from_slice(&nonce);
    expected.extend_from_slice(&[0, 0, 0, 3, 7, 8, 9]);
    expected.extend_from_slice(&[0, 0, 0, 0, 0, 0, 0, 5]);
    assert_eq!(frame, expected);
}

#[test]
fn user_frame_round_trip() {
    let nonce = vec![3u8; 12];
    let frame = user_frame("отправитель", "#группа", &nonce, &[1, 2, 3, 4, 5], -77);
    assert!(is_user_frame_complete(&frame[1..]));
    let parts = parse_user_frame(&frame[1..]);
    assert_eq!(parts.sender, "отправитель");
    assert_eq!(parts.recipient, "#группа");
    assert_eq!(parts.nonce, nonce);
    assert_eq!(parts.encrypted, vec![1, 2, 3, 4, 5]);
    assert_eq!(parts.timestamp, Some(-77));
}

#[test]
fn the_time_may_be_missing() {
    let frame = user_frame("a", "b", &[0u8; 12], &[1], 5);
    let short = &frame[1..frame.len() - 1];
    assert!(is_user_frame_complete(short));
    assert_eq!(parse_user_frame(short).timestamp, None);
    assert_eq!(parse_user_frame(short).encrypted, vec![1]);
}

#[test]
fn every_other_part_must_be_there() {
    let frame = user_frame("ab", "cd", &[0u8; 12], &[1, 2], 5);
    let whole = frame.len() - 1 - 8;
    let mut n = 0;
    while n < whole {
        assert!(!is_user_frame_complete(&frame[1..1 + n]));
        n += 1;
    }
    assert!(is_user_frame_complete(&frame[1..1 + whole]));
}

#[test]
fn names_that_are_no_text_count_as_empty() {
    let mut rest = vec![0, 0, 0, 1, 0xff, 0, 0, 0, 1, 0xfe];
    rest.extend_from_slice(&[0u8; 12]);
    rest.extend_from_slice(&[0, 0, 0, 0]);
    let parts = parse_user_frame(&rest);
    assert_eq!(parts.sender, "");
    assert_eq!(parts.recipient, "");
    assert_eq!(parts.encrypted, Vec::<u8>::new());
}
