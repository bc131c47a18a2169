//! Who is connected.

use crate::crypto::SessionKeys;
use crate::table::Table;
use crate::text;
use crate::wire;
use vstd::prelude::*;

verus! {

broadcast use {text::lemma_views_push, text::lemma_views_len, text::lemma_views_index};

/// A connection as the other connections see it.
pub struct Peer {
    /// The number of the connection.
    pub conn: u64,
    pub keys: SessionKeys,
    pub connected: bool,
    pub username: Option<String>,
}

#[verifier::ext_equal]
pub struct PeerView {
    pub conn: u64,
    pub keys: SessionKeys,
    pub connected: bool,
    pub username: Option<Seq<char>>,
}

impl View for Peer {
    type V = PeerView;

    open spec fn view(&self) -> PeerView {
        PeerView {
            conn: self.conn,
            keys: self.keys,
            connected: self.connected,
            username: text::option_text(self.username),
        }
    }
}

impl Peer {
    fn copy(&self) -> (r: Peer)
        ensures
            r@ == self@,
    {
        Peer {
            conn: self.conn,
            keys: self.keys,
            connected: self.connected,
            username: text::copy_option(&self.username),
        }
    }
}

/// The tokens under which one user is connected, in the order of their arrival.
pub struct Devices {
    pub tokens: Vec<String>,
}

impl View for Devices {
    type V = Seq<Seq<char>>;

    open spec fn view(&self) -> Seq<Seq<char>> {
        text::views(self.tokens@)
    }
}

/// The connections of the server: by the key under which each is known, and by the
/// name of its user.
///
/// A connection has a temporary key until its user is known, and its token from
/// then on.
pub struct AppState {
    sessions: Table<Peer>,
    online_users: Table<Devices>,
}

#[verifier::ext_equal]
pub struct AppStateView {
    pub sessions: Map<Seq<char>, PeerView>,
    pub online: Map<Seq<char>, Seq<Seq<char>>>,
}

impl View for AppState {
    type V = AppStateView;

    closed spec fn view(&self) -> AppStateView {
        AppStateView { sessions: self.sessions@, online: self.online_users@ }
    }
}

/// Whether a system message to all reaches the connection: it is not the one of the
/// user who is left out.
pub open spec fn hears(peer: PeerView, exclude: Option<Seq<char>>) -> bool {
    peer.connected && !(peer.username is Some && peer.username == exclude)
}

/// Holds of every text but the given one.
pub open spec fn other_than(out: Seq<char>) -> spec_fn(Seq<char>) -> bool {
    |t: Seq<char>| t != out
}

/// The peers among the sessions that have one of the tokens, in the order of the
/// tokens.
pub open spec fn peers_of(
    sessions: Map<Seq<char>, PeerView>,
    tokens: Seq<Seq<char>>,
) -> Seq<PeerView>
    decreases tokens.len(),
{
    if tokens.len() == 0 {
        Seq::empty()
    } else {
        let before = peers_of(sessions, tokens.drop_last());
        if sessions.contains_key(tokens.last()) {
            before.push(sessions[tokens.last()])
        } else {
            before
        }
    }
}

impl AppStateView {
    /// No user is listed as connected without a device.
    pub open spec fn wf(self) -> bool {
        forall|u: Seq<char>| #[trigger]
            self.online.contains_key(u) ==> self.online[u].len() > 0
    }

    /// The tokens under which the user is connected.
    pub open spec fn tokens_of(self, username: Seq<char>) -> Seq<Seq<char>> {
        if self.online.contains_key(username) {
            self.online[username]
        } else {
            Seq::empty()
        }
    }

    /// The connections of the user.
    pub open spec fn devices_of(self, username: Seq<char>) -> Seq<PeerView> {
        peers_of(self.sessions, self.tokens_of(username))
    }

    /// With one more connection, whose user is not known yet.
    pub open spec fn connected(self, temp_id: Seq<char>, peer: PeerView) -> AppStateView {
        AppStateView { sessions: self.sessions.insert(temp_id, peer), ..self }
    }

    /// With the connection known under its token, as one more device of its user.
    pub open spec fn signed_in(
        self,
        temp_id: Seq<char>,
        token: Seq<char>,
        peer: PeerView,
        username: Seq<char>,
    ) -> AppStateView {
        AppStateView {
            sessions: self.sessions.remove(temp_id).insert(token, peer),
            online: self.online.insert(username, self.tokens_of(username).push(token)),
        }
    }

    /// With another name of the user on the connection `conn`, where the token still
    /// belongs to that connection.
    pub open spec fn renamed(
        self,
        token: Seq<char>,
        conn: u64,
        username: Seq<char>,
    ) -> AppStateView {
        if self.sessions.contains_key(token) && self.sessions[token].conn == conn {
            AppStateView {
                sessions: self.sessions.insert(
                    token,
                    PeerView { username: Some(username), ..self.sessions[token] },
                ),
                ..self
            }
        } else {
            self
        }
    }

    /// Without the device of the user. A user without a device is no longer listed.
    /// An empty name stands for no user, an empty token for no device.
    pub open spec fn signed_out(self, username: Seq<char>, token: Seq<char>) -> AppStateView {
        let left = self.tokens_of(username).filter(other_than(token));
        AppStateView {
            sessions: if token.len() == 0 {
                self.sessions
            } else {
                self.sessions.remove(token)
            },
            online: if username.len() == 0 || !self.online.contains_key(username) {
                self.online
            } else if left.len() == 0 {
                self.online.remove(username)
            } else {
                self.online.insert(username, left)
            },
        }
    }
}

impl AppState {
    /// Each key and each user stands once, and no user without a device.
    pub closed spec fn wf(&self) -> bool {
        &&& self.sessions.wf()
        &&& self.online_users.wf()
        &&& self@.wf()
    }

    /// Nobody is connected.
    pub fn new() -> (r: AppState)
        ensures
            r.wf(),
            r@ == (AppStateView { sessions: Map::empty(), online: Map::empty() }),
    {
        AppState { sessions: Table::new(), online_users: Table::new() }
    }

    /// Adds a connection whose user is not known yet.
    pub fn connect(&mut self, temp_id: String, peer: Peer)
        requires
            old(self).wf(),
        ensures
            final(self).wf(),
            final(self)@ == old(self)@.connected(temp_id@, peer@),
    {
        self.sessions.insert(temp_id, peer);
        assert(self@ =~= old(self)@.connected(temp_id@, peer@));
    }

    fn tokens(&self, username: &str) -> (r: Vec<String>)
        requires
            self.wf(),
        ensures
            text::views(r@) == self@.tokens_of(username@),
    {
        match self.online_users.get(username) {
            Some(devices) => {
                let mut r: Vec<String> = Vec::new();
                let mut i: usize = 0;
                while i < devices.tokens.len()
                    invariant
                        i <= devices.tokens@.len(),
                        text::views(r@) == devices@.take(i as int),
                    decreases devices.tokens@.len() - i,
                {
                    r.push(devices.tokens[i].clone());
                    assert(devices@.take(i + 1) =~= devices@.take(i as int).push(
                        devices@[i as int],
                    ));
                    i = i + 1;
                }
                assert(devices@.take(devices@.len() as int) =~= devices@);
                r
            },
            None => {
                let r: Vec<String> = Vec::new();
                assert(text::views(r@) =~= Seq::<Seq<char>>::empty());
                r
            },
        }
    }

    /// Makes the connection known under its token, as one more device of its user.
    pub fn sign_in(&mut self, temp_id: &str, token: &str, peer: Peer, username: &str)
        requires
            old(self).wf(),
        ensures
            final(self).wf(),
            final(self)@ == old(self)@.signed_in(temp_id@, token@, peer@, username@),
    {
        let mut tokens = self.tokens(username);
        tokens.push(token.to_owned());
        self.sessions.remove(temp_id);
        self.sessions.insert(token.to_owned(), peer);
        self.online_users.insert(username.to_owned(), Devices { tokens });
        assert(self@ =~= old(self)@.signed_in(temp_id@, token@, peer@, username@));
    }

    /// Gives the user of the connection another name.
    pub fn rename(&mut self, token: &str, conn: u64, username: &str)
        requires
            old(self).wf(),
        ensures
            final(self).wf(),
            final(self)@ == old(self)@.renamed(token@, conn, username@),
    {
        let found = match self.sessions.get(token) {
            Some(peer) => if peer.conn == conn {
                Some(peer.copy())
            } else {
                None
            },
            None => None,
        };
        match found {
            Some(peer) => {
                let renamed = Peer { username: Some(username.to_owned()), ..peer };
                self.sessions.insert(token.to_owned(), renamed);
            },
            None => {},
        }
        assert(self@ =~= old(self)@.renamed(token@, conn, username@));
    }

    /// Takes the device of the user out.
    pub fn sign_out(&mut self, username: &str, token: &str)
        requires
            old(self).wf(),
        ensures
            final(self).wf(),
            final(self)@ == old(self)@.signed_out(username@, token@),
    {
        let ghost before = self@;
        if !username.is_empty() {
            if self.online_users.get(username).is_some() {
                let tokens = self.tokens(username);
                let left = without(&tokens, token);
                if left.len() == 0 {
                    self.online_users.remove(username);
                } else {
                    self.online_users.insert(username.to_owned(), Devices { tokens: left });
                }
            }
        }
        if !token.is_empty() {
            self.sessions.remove(token);
        }
        assert(self@ =~= before.signed_out(username@, token@));
    }

    /// Whether the user is connected.
    pub fn is_online(&self, username: &str) -> (r: bool)
        requires
            self.wf(),
        ensures
            r == self@.online.contains_key(username@),
    {
        self.online_users.get(username).is_some()
    }

    /// The connections of the user.
    pub fn devices(&self, username: &str) -> (r: Vec<Peer>)
        requires
            self.wf(),
        ensures
            text::views(r@) == self@.devices_of(username@),
    {
        let tokens = self.tokens(username);
        let ghost all = text::views(tokens@);
        let mut r: Vec<Peer> = Vec::new();
        let mut i: usize = 0;
        assert(text::views(r@) =~= peers_of(self@.sessions, all.take(0)));
        while i < tokens.len()
            invariant
                self.wf(),
                all == text::views(tokens@),
                i <= tokens@.len(),
                text::views(r@) == peers_of(self@.sessions, all.take(i as int)),
            decreases tokens@.len() - i,
        {
            assert(all.take(i + 1).drop_last() =~= all.take(i as int));
            match self.sessions.get(tokens[i].as_str()) {
                Some(peer) => {
                    r.push(peer.copy());
                },
                None => {},
            }
            i = i + 1;
        }
        assert(all.take(all.len() as int) =~= all);
        r
    }

    /// The connections that a system message to all reaches, each with the frame for
    /// it. Each session that hears it gets one frame; their order is not fixed.
    pub fn broadcast_system_message(&self, message: &str, exclude_username: Option<&str>) -> (r: Vec<
        (u64, Vec<u8>),
    >)
        requires
            self.wf(),
        ensures
            exists|keys: Seq<Seq<char>>|
                {
                    &&& #[trigger] keys.no_duplicates()
                    &&& forall|k: Seq<char>|
                        keys.contains(k) <==> self@.sessions.contains_key(k) && hears(
                            self@.sessions[k],
                            match exclude_username {
                                Some(u) => Some(u@),
                                None => None,
                            },
                        )
                    &&& r@.len() == keys.len()
                    &&& forall|i: int|
                        0 <= i < r@.len() ==> (#[trigger] r@[i]).0 == self@.sessions[keys[i]].conn
                            && r@[i].1@ == wire::system_frame_of(message@)
                },
    {
        let ghost exclude = match exclude_username {
            Some(u) => Some(u@),
            None => None,
        };
        let ghost all = self.sessions.keys();
        let ghost mut keys: Seq<Seq<char>> = Seq::empty();
        let mut r: Vec<(u64, Vec<u8>)> = Vec::new();
        let mut i: usize = 0;
        proof {
            self.sessions.lemma_keys();
        }
        while i < self.sessions.len()
            invariant
                self.wf(),
                all == self.sessions.keys(),
                all.no_duplicates(),
                exclude == (match exclude_username {
                    Some(u) => Some(u@),
                    None => None,
                }),
                i <= all.len(),
                keys.no_duplicates(),
                forall|k: Seq<char>|
                    keys.contains(k) <==> all.take(i as int).contains(k) && hears(
                        self@.sessions[k],
                        exclude,
                    ),
                r@.len() == keys.len(),
                forall|j: int|
                    0 <= j < r@.len() ==> (#[trigger] r@[j]).0 == self@.sessions[keys[j]].conn
                        && r@[j].1@ == wire::system_frame_of(message@),
            decreases all.len() - i,
        {
            let (key, peer) = self.sessions.at(i);
            let left_out = match (&peer.username, exclude_username) {
                (Some(name), Some(excluded)) => text::same_text(name.as_str(), excluded),
                _ => false,
            };
            proof {
                let k = key@;
                assert(all[i as int] == k);
                assert(all.take(i + 1) =~= all.take(i as int).push(k));
                assert(!all.take(i as int).contains(k)) by {
                    if all.take(i as int).contains(k) {
                        let n = all.take(i as int).index_of(k);
                        assert(all[n] == all[i as int]);
                    }
                }
                assert forall|x: Seq<char>|
                    all.take(i + 1).contains(x) <==> all.take(i as int).contains(x) || x == k by {
                    if all.take(i as int).contains(x) {
                        let n = all.take(i as int).index_of(x);
                        assert(all.take(i + 1)[n] == x);
                    }
                    if x == k {
                        assert(all.take(i + 1)[i as int] == x);
                    }
                }
            }
            if peer.connected && !left_out {
                let frame = wire::system_frame(message);
                r.push((peer.conn, frame));
                proof {
                    let k = key@;
                    let old_keys = keys;
                    keys = keys.push(k);
                    assert(!old_keys.contains(k));
                    assert forall|a: int, b: int|
                        0 <= a < keys.len() && 0 <= b < keys.len() && a
                            != b implies #[trigger] keys[a] != #[trigger] keys[b] by {
                        if a < old_keys.len() {
                            assert(old_keys.contains(old_keys[a]));
                        }
                        if b < old_keys.len() {
                            assert(old_keys.contains(old_keys[b]));
                        }
                    }
                    assert forall|x: Seq<char>|
                        keys.contains(x) <==> old_keys.contains(x) || x == k by {
                        if old_keys.contains(x) {
                            let n = old_keys.index_of(x);
                            assert(keys[n] == x);
                        }
                        if x == k {
                            assert(keys[old_keys.len() as int] == x);
                        }
                    }
                }
            }
            i = i + 1;
        }
        proof {
            assert(all.take(all.len() as int) =~= all);
            self.sessions.lemma_keys();
        }
        r
    }
}

/// The texts that are not `out`.
fn without(texts: &Vec<String>, out: &str) -> (r: Vec<String>)
    ensures
        text::views(r@) == text::views(texts@).filter(other_than(out@)),
{
    let ghost keep = other_than(out@);
    let ghost all = text::views(texts@);
    let mut r: Vec<String> = Vec::new();
    let mut i: usize = 0;
    reveal(Seq::filter);
    assert(text::views(r@) =~= all.take(0).filter(keep));
    while i < texts.len()
        invariant
            i <= texts@.len(),
            all == text::views(texts@),
            keep == other_than(out@),
            text::views(r@) == all.take(i as int).filter(keep),
        decreases texts@.len() - i,
    {
        reveal(Seq::filter);
        assert(all.take(i + 1).drop_last() =~= all.take(i as int));
        if !text::same_text(texts[i].as_str(), out) {
            r.push(texts[i].clone());
        }
        i = i + 1;
    }
    assert(all.take(all.len() as int) =~= all);
    r
}

/// A device that signs in is one of the connections of its user, besides those that
/// the user had, and its temporary key is gone.
pub proof fn law_sign_in(
    s: AppStateView,
    temp_id: Seq<char>,
    token: Seq<char>,
    peer: PeerView,
    username: Seq<char>,
)
    requires
        temp_id != token,
    ensures
        ({
            let t = s.signed_in(temp_id, token, peer, username);
            &&& s.wf() ==> t.wf()
            &&& t.tokens_of(username) == s.tokens_of(username).push(token)
            &&& t.devices_of(username).last() == peer
            &&& t.devices_of(username).len() > 0
            &&& !t.sessions.contains_key(temp_id)
            &&& forall|u: Seq<char>| u != username ==> #[trigger] t.tokens_of(u) == s.tokens_of(u)
        }),
{
    let t = s.signed_in(temp_id, token, peer, username);
    let tokens = t.tokens_of(username);
    assert(tokens.last() == token);
}

/// A device that signs out is no device of its user any more. The user stays online
/// exactly as long as another device is left, and nobody else is affected.
pub proof fn law_sign_out(s: AppStateView, username: Seq<char>, token: Seq<char>)
    requires
        username.len() > 0,
        token.len() > 0,
    ensures
        ({
            let t = s.signed_out(username, token);
            &&& s.wf() ==> t.wf()
            &&& !t.sessions.contains_key(token)
            &&& !t.tokens_of(username).contains(token)
            &&& s.wf() ==> (t.online.contains_key(username) <==> exists|i: int|
                0 <= i < s.tokens_of(username).len() && #[trigger] s.tokens_of(username)[i]
                    != token)
            &&& forall|u: Seq<char>| u != username ==> #[trigger] t.tokens_of(u) == s.tokens_of(u)
        }),
{
    let keep = other_than(token);
    let tokens = s.tokens_of(username);
    let left = tokens.filter(keep);
    lemma_filter_properties(tokens, keep);
    if left.len() > 0 {
        assert(tokens.contains(left[0]) && keep(left[0])) by {
            assert(left.contains(left[0]));
        }
        let i = tokens.index_of(left[0]);
        assert(tokens[i] != token);
    }
    assert forall|i: int| 0 <= i < tokens.len() && #[trigger] tokens[i] != token implies left.len()
        > 0 by {
        assert(keep(tokens[i]));
        assert(left.contains(tokens[i]));
    }
    assert(!left.contains(token));
    let t = s.signed_out(username, token);
    if s.online.contains_key(username) {
        assert(t.tokens_of(username) =~= left);
    }
}

/// Signing out undoes signing in: with a token that nobody had, who is connected is
/// afterwards as it was, but for the temporary key.
pub proof fn law_sign_in_then_out(
    s: AppStateView,
    temp_id: Seq<char>,
    token: Seq<char>,
    peer: PeerView,
    username: Seq<char>,
)
    requires
        s.wf(),
        username.len() > 0,
        token.len() > 0,
        !s.sessions.contains_key(token),
        !s.tokens_of(username).contains(token),
    ensures
        s.signed_in(temp_id, token, peer, username).signed_out(username, token) == (AppStateView {
            sessions: s.sessions.remove(temp_id),
            online: s.online,
        }),
{
    let tokens = s.tokens_of(username);
    let t = s.signed_in(temp_id, token, peer, username);
    let u = t.signed_out(username, token);
    reveal(Seq::filter);
    assert(tokens.push(token).drop_last() =~= tokens);
    lemma_filter_all(tokens, token);
    assert(t.tokens_of(username).filter(other_than(token)) =~= tokens);
    assert(u.online =~= s.online);
    assert(u.sessions =~= s.sessions.remove(temp_id));
}

proof fn lemma_filter_all(s: Seq<Seq<char>>, out: Seq<char>)
    requires
        !s.contains(out),
    ensures
        s.filter(other_than(out)) == s,
    decreases s.len(),
{
    reveal(Seq::filter);
    if s.len() > 0 {
        let before = s.drop_last();
        assert(!before.contains(out)) by {
            if before.contains(out) {
                let i = before.index_of(out);
                assert(s[i] == out);
            }
        }
        lemma_filter_all(before, out);
        assert(s.last() != out) by {
            assert(s[s.len() - 1] == s.last());
        }
        assert(s =~= before.push(s.last()));
    }
}

proof fn lemma_filter_properties(s: Seq<Seq<char>>, keep: spec_fn(Seq<char>) -> bool)
    ensures
        forall|x: Seq<char>| #[trigger] s.filter(keep).contains(x) <==> s.contains(x) && keep(x),
    decreases s.len(),
{
    reveal(Seq::filter);
    if s.len() > 0 {
        let before = s.drop_last();
        lemma_filter_properties(before, keep);
        let f = before.filter(keep);
        assert forall|x: Seq<char>| #[trigger] s.filter(keep).contains(x) <==> s.contains(x) && keep(
            x,
        ) by {
            if s.contains(x) && x != s.last() {
                let i = s.index_of(x);
                assert(before[i] == x);
            }
            if before.contains(x) {
                let i = before.index_of(x);
                assert(s[i] == x);
            }
            if keep(s.last()) {
                if f.contains(x) {
                    let i = f.index_of(x);
                    assert(s.filter(keep)[i] == x);
                }
                if x == s.last() {
                    assert(s.filter(keep)[f.len() as int] == x);
                }
            }
        }
    }
}

/// A system message goes to each connection that is up, but for those of the user who is
/// left out.
pub proof fn law_hears(peer: PeerView, user: Seq<char>)
    ensures
        hears(peer, None) == peer.connected,
        hears(peer, Some(user)) == (peer.connected && peer.username != Some(user)),
{
}

/// The connections of a user are those of the user's tokens, in their order, one for each
/// token that still has one.
pub proof fn law_connections(
    sessions: Map<Seq<char>, PeerView>,
    a: Seq<Seq<char>>,
    b: Seq<Seq<char>>,
    token: Seq<char>,
)
    ensures
        peers_of(sessions, Seq::empty()) == Seq::<PeerView>::empty(),
        sessions.contains_key(token) ==> peers_of(sessions, seq![token]) == seq![sessions[token]],
        !sessions.contains_key(token) ==> peers_of(sessions, seq![token]) == Seq::<
            PeerView,
        >::empty(),
        peers_of(sessions, a + b) == peers_of(sessions, a) + peers_of(sessions, b),
    decreases b.len(),
{
    reveal_with_fuel(peers_of, 2);
    assert(seq![token].drop_last() =~= Seq::<Seq<char>>::empty());
    if b.len() == 0 {
        assert(a + b =~= a);
        assert(peers_of(sessions, a) + Seq::<PeerView>::empty() =~= peers_of(sessions, a));
    } else {
        law_connections(sessions, a, b.drop_last(), token);
        assert((a + b).drop_last() =~= a + b.drop_last());
        assert((a + b).last() == b.last());
        assert(peers_of(sessions, a + b) =~= peers_of(sessions, a) + peers_of(sessions, b));
    }
}

/// The connections of a user are found by the tokens that the user is listed with, and
/// whoever is not listed has none.
pub proof fn law_devices_of(s: AppStateView, username: Seq<char>)
    ensures
        s.online.contains_key(username) ==> s.devices_of(username) == peers_of(
            s.sessions,
            s.online[username],
        ),
        !s.online.contains_key(username) ==> s.devices_of(username) == Seq::<PeerView>::empty(),
{
}

/// Coming, signing in, taking another name and leaving change what is known of the own
/// connection and of no other: who stands under any other key stays as it was.
pub proof fn law_own_connection(
    s: AppStateView,
    temp_id: Seq<char>,
    token: Seq<char>,
    peer: PeerView,
    conn: u64,
    username: Seq<char>,
    other: Seq<char>,
)
    requires
        other != temp_id,
        other != token,
    ensures
        ({
            let came = s.connected(temp_id, peer);
            let known = s.signed_in(temp_id, token, peer, username);
            let renamed = s.renamed(token, conn, username);
            let left = s.signed_out(username, token);
            &&& came.sessions.contains_key(temp_id) && came.sessions[temp_id] == peer
            &&& came.online == s.online
            &&& known.sessions.contains_key(token) && known.sessions[token] == peer
            &&& renamed.online == s.online
            &&& renamed.sessions.dom() == s.sessions.dom()
            &&& s.sessions.contains_key(token) && s.sessions[token].conn == conn
                ==> renamed.sessions[token] == PeerView {
                username: Some(username),
                ..s.sessions[token]
            }
            &&& s.sessions.contains_key(token) && s.sessions[token].conn != conn ==> renamed == s
            &&& same_at(came, s, other)
            &&& same_at(known, s, other)
            &&& same_at(renamed, s, other)
            &&& same_at(left, s, other)
        }),
{
    let renamed = s.renamed(token, conn, username);
    assert(renamed.sessions.dom() =~= s.sessions.dom());
}

/// Whether the same connection stands under the key.
pub open spec fn same_at(a: AppStateView, b: AppStateView, key: Seq<char>) -> bool {
    &&& a.sessions.contains_key(key) == b.sessions.contains_key(key)
    &&& a.sessions[key] == b.sessions[key]
}

/// A user who leaves with one device keeps all the others, in their order. Without a token
/// no connection is taken out, and without a name no device.
pub proof fn law_other_devices_stay(s: AppStateView, username: Seq<char>, token: Seq<char>)
    ensures
        ({
            let t = s.signed_out(username, token);
            let left = s.tokens_of(username).filter(|x: Seq<char>| x != token);
            &&& username.len() > 0 ==> t.tokens_of(username) == left
            &&& username.len() > 0 ==> (t.online.contains_key(username) <==> left.len() > 0)
            &&& username.len() == 0 ==> t.online == s.online
            &&& token.len() > 0 ==> t.sessions == s.sessions.remove(token)
            &&& token.len() == 0 ==> t.sessions == s.sessions
        }),
{
    reveal(Seq::filter);
    let keep = |x: Seq<char>| x != token;
    assert(other_than(token) =~= keep);
}

} // verus!
