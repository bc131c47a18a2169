//! What the server knows of one connection.

use crate::crypto::SessionKeys;
use crate::text;
use vstd::prelude::*;

verus! {

/// How long messages are counted before the count starts again, in nanoseconds.
pub const RATE_LIMIT_WINDOW: u64 = 1_000_000_000;

/// How many messages are accepted while the count runs.
pub const RATE_LIMIT_MAX: usize = 10;

/// One connection. Times are nanoseconds on a clock that never goes back.
pub struct Session {
    pub keys: SessionKeys,
    pub connected: bool,
    pub user_id: Option<String>,
    pub username: Option<String>,
    pub token: Option<String>,
    /// When the count of messages started.
    pub last_msg_time: u64,
    /// How many messages were counted since.
    pub msg_count: usize,
}

#[verifier::ext_equal]
pub struct SessionView {
    pub keys: SessionKeys,
    pub connected: bool,
    pub user_id: Option<Seq<char>>,
    pub username: Option<Seq<char>>,
    pub token: Option<Seq<char>>,
    pub last_msg_time: u64,
    pub msg_count: usize,
}

impl View for Session {
    type V = SessionView;

    open spec fn view(&self) -> SessionView {
        SessionView {
            keys: self.keys,
            connected: self.connected,
            user_id: text::option_text(self.user_id),
            username: text::option_text(self.username),
            token: text::option_text(self.token),
            last_msg_time: self.last_msg_time,
            msg_count: self.msg_count,
        }
    }
}

/// Whether more time than the window lies between `since` and `now`.
pub open spec fn window_over(since: u64, now: u64) -> bool {
    now - since > RATE_LIMIT_WINDOW
}

impl SessionView {
    /// The session after one more message at the time `now`: behind the window the
    /// count starts again with this message, inside it the message is counted.
    pub open spec fn counted(self, now: u64) -> SessionView {
        if window_over(self.last_msg_time, now) {
            SessionView { last_msg_time: now, msg_count: 1, ..self }
        } else {
            SessionView { msg_count: (self.msg_count + 1) as usize, ..self }
        }
    }

    /// Whether one more message at the time `now` is accepted.
    pub open spec fn admits(self, now: u64) -> bool {
        self.counted(now).msg_count <= RATE_LIMIT_MAX
    }

    /// The session after messages at the given times, one after the other.
    pub open spec fn counted_all(self, times: Seq<u64>) -> SessionView
        decreases times.len(),
    {
        if times.len() == 0 {
            self
        } else {
            self.counted_all(times.drop_last()).counted(times.last())
        }
    }
}

impl Session {
    /// A connection whose user is not known yet.
    pub fn new(keys: SessionKeys, now: u64) -> (r: Session)
        ensures
            r@ == (SessionView {
                keys,
                connected: true,
                user_id: None,
                username: None,
                token: None,
                last_msg_time: now,
                msg_count: 0,
            }),
    {
        Session {
            keys,
            connected: true,
            user_id: None,
            username: None,
            token: None,
            last_msg_time: now,
            msg_count: 0,
        }
    }

    /// Tells whether one more message at the time `now` is accepted.
    pub fn would_admit(&self, now: u64) -> (r: bool)
        requires
            self.msg_count < usize::MAX,
        ensures
            r == self@.admits(now),
    {
        (now >= self.last_msg_time && now - self.last_msg_time > RATE_LIMIT_WINDOW)
            || self.msg_count < RATE_LIMIT_MAX
    }

    /// Counts a message and tells whether it is accepted.
    pub fn check_rate_limit(&mut self, now: u64) -> (r: bool)
        requires
            old(self).msg_count < usize::MAX,
        ensures
            final(self)@ == old(self)@.counted(now),
            r == old(self)@.admits(now),
    {
        let elapsed: u64 = if now >= self.last_msg_time {
            now - self.last_msg_time
        } else {
            0
        };
        if elapsed > RATE_LIMIT_WINDOW {
            self.last_msg_time = now;
            self.msg_count = 1;
            true
        } else {
            self.msg_count = self.msg_count + 1;
            self.msg_count <= RATE_LIMIT_MAX
        }
    }
}

/// While the window lasts, exactly so many messages are accepted as the limit has
/// left: of messages that all come inside the window, the one behind `n` others is
/// accepted if and only if the ones counted before the first of them, those `n`
/// and itself are no more than the limit.
pub proof fn law_rate_limit(s: SessionView, times: Seq<u64>, now: u64)
    requires
        s.msg_count + times.len() < usize::MAX,
        forall|i: int|
            0 <= i < times.len() ==> !window_over(s.last_msg_time, #[trigger] times[i]),
        !window_over(s.last_msg_time, now),
    ensures
        s.counted_all(times).msg_count == s.msg_count + times.len(),
        s.counted_all(times).admits(now) <==> s.msg_count + times.len() + 1 <= RATE_LIMIT_MAX,
{
    lemma_counted_all(s, times);
}

proof fn lemma_counted_all(s: SessionView, times: Seq<u64>)
    requires
        s.msg_count + times.len() < usize::MAX,
        forall|i: int|
            0 <= i < times.len() ==> !window_over(s.last_msg_time, #[trigger] times[i]),
    ensures
        s.counted_all(times).msg_count == s.msg_count + times.len(),
        s.counted_all(times).last_msg_time == s.last_msg_time,
    decreases times.len(),
{
    if times.len() > 0 {
        lemma_counted_all(s, times.drop_last());
        assert(times.last() == times[times.len() - 1]);
    }
}

/// Behind the window the next message is accepted, whatever was counted before, and
/// a new window starts with it.
pub proof fn law_rate_limit_restarts(s: SessionView, now: u64)
    requires
        window_over(s.last_msg_time, now),
    ensures
        s.admits(now),
        s.counted(now).last_msg_time == now,
        s.counted(now).msg_count == 1,
{
}

/// A message is accepted if a second has passed since the count started, or if fewer than
/// ten were counted since. Counting changes the count and its start alone: behind the
/// second both start again with this message, and else the message is the next one.
pub proof fn law_ten_a_second(s: SessionView, now: u64)
    requires
        s.msg_count < usize::MAX,
    ensures
        s.admits(now) <==> now - s.last_msg_time > 1_000_000_000 || s.msg_count < 10,
        now - s.last_msg_time > 1_000_000_000 ==> s.counted(now) == (SessionView {
            last_msg_time: now,
            msg_count: 1,
            ..s
        }),
        now - s.last_msg_time <= 1_000_000_000 ==> s.counted(now) == (SessionView {
            msg_count: (s.msg_count + 1) as usize,
            ..s
        }),
{
}

} // verus!
