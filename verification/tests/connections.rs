use relay_server::crypto::SessionKeys;
use relay_server::session::{Session, RATE_LIMIT_MAX, RATE_LIMIT_WINDOW};
use relay_server::state::{AppState, Peer};
use relay_server::table::Table;
use relay_server::wire::system_frame;

fn keys(n: u8) -> SessionKeys {
    SessionKeys { key: [n; 32] }
}

fn peer(conn: u64, username: Option<&str>) -> Peer {
    Peer { conn, keys: keys(conn as u8), connected: true, username: username.map(|s| s.to_string()) }
}

fn conns(state: &AppState, username: &str) -> Vec<u64> {
    state.devices(username).iter().map(|p| p.conn).collect()
}

fn heard(state: &AppState, exclude: Option<&str>) -> Vec<u64> {
    let mut conns: Vec<u64> =
        state.broadcast_system_message("привет", exclude).iter().map(|(c, _)| *c).collect();
    conns.sort();
    conns
}

#[test]
fn a_new_session_has_no_user() {
    let session = Session::new(keys(1), 17);
    assert!(session.connected);
    assert!(session.user_id.is_none() && session.username.is_none() && session.token.is_none());
    assert_eq!(session.last_msg_time, 17);
    assert_eq!(session.msg_count, 0);
    assert_eq!(session.keys, keys(1));
}

#[test]
fn ten_messages_in_a_second() {
    assert_eq!(RATE_LIMIT_MAX, 10);
    assert_eq!(RATE_LIMIT_WINDOW, 1_000_000_000);
    let mut session = Session::new(keys(1), 0);
    let mut n = 1;
    while n <= 10 {
        assert!(session.would_admit(n));
        assert!(session.check_rate_limit(n));
        n += 1;
    }
    assert!(!session.would_admit(500));
    assert!(!session.check_rate_limit(500));
    assert!(!session.check_rate_limit(1_000_000_000));
    assert!(session.check_rate_limit(1_000_000_001));
    assert_eq!(session.msg_count, 1);
    assert_eq!(session.last_msg_time, 1_000_000_001);
}

#[test]
fn the_window_starts_with_its_first_message() {
    let mut session = Session::new(keys(1), 0);
    assert!(session.check_rate_limit(2_000_000_000));
    let mut n = 0;
    while n < 9 {
        assert!(session.check_rate_limit(3_000_000_000));
        n += 1;
    }
    assert!(!session.check_rate_limit(3_000_000_000));
}

#[test]
fn a_clock_that_stands_still_counts() {
    let mut session = Session::new(keys(1), 100);
    assert!(session.check_rate_limit(50));
    assert_eq!(session.msg_count, 1);
    assert_eq!(session.last_msg_time, 100);
}

#[test]
fn devices_come_in_the_order_of_their_arrival() {
    let mut state = AppState::new();
    assert!(!state.is_online("bob"));
    state.connect("t1".to_string(), peer(1, None));
    state.sign_in("t1", "tok1", peer(1, Some("bob")), "bob");
    state.connect("t2".to_string(), peer(2, None));
    state.sign_in("t2", "tok2", peer(2, Some("bob")), "bob");
    assert!(state.is_online("bob"));
    assert_eq!(conns(&state, "bob"), vec![1, 2]);
    assert_eq!(state.devices("bob")[1].keys, keys(2));
    assert_eq!(conns(&state, "eve"), Vec::<u64>::new());
}

#[test]
fn signing_out_leaves_the_other_devices() {
    let mut state = AppState::new();
    state.sign_in("t1", "tok1", peer(1, Some("bob")), "bob");
    state.sign_in("t2", "tok2", peer(2, Some("bob")), "bob");
    state.sign_in("t3", "tok3", peer(3, Some("eve")), "eve");
    state.sign_out("bob", "tok1");
    assert_eq!(conns(&state, "bob"), vec![2]);
    assert!(state.is_online("bob"));
    state.sign_out("bob", "tok2");
    assert!(!state.is_online("bob"));
    assert_eq!(conns(&state, "eve"), vec![3]);
}

#[test]
fn signing_out_undoes_signing_in() {
    let mut state = AppState::new();
    state.sign_in("x", "old", peer(9, Some("bob")), "bob");
    state.connect("t1".to_string(), peer(1, None));
    state.sign_in("t1", "tok1", peer(1, Some("bob")), "bob");
    state.sign_out("bob", "tok1");
    assert_eq!(conns(&state, "bob"), vec![9]);
    assert_eq!(heard(&state, None), vec![9]);
}

#[test]
fn an_empty_name_or_token_stands_for_none() {
    let mut state = AppState::new();
    state.sign_in("t1", "tok1", peer(1, Some("bob")), "bob");
    state.sign_out("", "");
    assert_eq!(conns(&state, "bob"), vec![1]);
    state.sign_out("", "tok1");
    assert!(state.is_online("bob"));
    assert_eq!(conns(&state, "bob"), Vec::<u64>::new());
}

#[test]
fn a_system_message_reaches_everybody_else() {
    let mut state = AppState::new();
    state.connect("t0".to_string(), peer(7, None));
    state.sign_in("t1", "tok1", peer(1, Some("bob")), "bob");
    state.sign_in("t2", "tok2", peer(2, Some("bob")), "bob");
    state.sign_in("t3", "tok3", peer(3, Some("eve")), "eve");
    assert_eq!(heard(&state, Some("bob")), vec![3, 7]);
    assert_eq!(heard(&state, Some("")), vec![1, 2, 3, 7]);
    assert_eq!(heard(&state, None), vec![1, 2, 3, 7]);
    let frames = state.broadcast_system_message("привет", Some("bob"));
    assert!(frames.iter().all(|(_, f)| *f == system_frame("привет")));
}

#[test]
fn who_is_not_connected_hears_nothing() {
    let mut state = AppState::new();
    let mut gone = peer(4, Some("bob"));
    gone.connected = false;
    state.connect("t".to_string(), gone);
    assert_eq!(heard(&state, None), Vec::<u64>::new());
}

#[test]
fn a_new_name_is_known_for_the_own_connection_alone() {
    let mut state = AppState::new();
    state.sign_in("t1", "tok1", peer(1, Some("bob")), "bob");
    state.rename("tok1", 2, "rob");
    assert_eq!(heard(&state, Some("bob")), Vec::<u64>::new());
    state.rename("tok1", 1, "rob");
    assert_eq!(heard(&state, Some("bob")), vec![1]);
    assert_eq!(heard(&state, Some("rob")), Vec::<u64>::new());
    assert_eq!(conns(&state, "bob"), vec![1]);
    state.rename("none", 1, "tom");
    assert_eq!(heard(&state, Some("rob")), Vec::<u64>::new());
}

#[test]
fn a_table_keeps_one_value_per_key() {
    let mut table: Table<String> = Table::new();
    assert!(table.get("a").is_none());
    table.insert("a".to_string(), "1".to_string());
    table.insert("b".to_string(), "2".to_string());
    table.insert("a".to_string(), "3".to_string());
    assert_eq!(table.len(), 2);
    assert_eq!(table.get("a").map(|s| s.as_str()), Some("3"));
    table.remove("a");
    assert!(table.get("a").is_none());
    assert_eq!(table.get("b").map(|s| s.as_str()), Some("2"));
    table.remove("zzz");
    assert_eq!(table.len(), 1);
}
