//! Sliding-window rate limiting per (bot, user) pair.
//!
//! Times are milliseconds on a monotonic clock that the caller reads; each
//! pair keeps the times of its recent accepted requests.

use vstd::prelude::*;
use dashmap::DashMap;

verus! {

/// The request times of each (bot, user) pair, as the map holds them.
pub uninterp spec fn request_times(m: DashMap<(String, String), Vec<u64>>) -> Map<(Seq<char>, Seq<char>), Seq<u64>>;

/// `DashMap::new`: a map with nothing in it.
#[verifier::external_body]
fn times_map_new() -> (m: DashMap<(String, String), Vec<u64>>)
    ensures
        request_times(m) =~= Map::empty(),
{
    DashMap::new()
}

/// `DashMap::get` on the pair (`bot`, `user`), its times copied out; no times
/// when the pair is not in the map.
#[verifier::external_body]
fn times_of(m: &DashMap<(String, String), Vec<u64>>, bot: &str, user: &str) -> (r: Vec<u64>)
    ensures
        r@ == match request_times(*m).get((bot@, user@)) {
            Some(t) => t,
            None => Seq::<u64>::empty(),
        },
{
    match m.get(&(bot.to_string(), user.to_string())) {
        Some(entry) => entry.value().clone(),
        None => Vec::new(),
    }
}

/// `DashMap::insert`: the pair (`bot`, `user`) now holds `times`; no other
/// pair changes.
#[verifier::external_body]
fn set_times(m: &mut DashMap<(String, String), Vec<u64>>, bot: &str, user: &str, times: Vec<u64>)
    ensures
        request_times(*final(m)) == request_times(*old(m)).insert((bot@, user@), times@),
{
    m.insert((bot.to_string(), user.to_string()), times);
}

/// A sliding-window rate limiter: at most `max_requests` accepted requests
/// per (bot, user) pair within any `time_window_ms`.
pub struct RateLimiter {
    requests: DashMap<(String, String), Vec<u64>>,
    max_requests: usize,
    time_window_ms: u64,
}

/// `now - t`, or 0 when `t` is later (`Instant::duration_since` saturates).
pub open spec fn elapsed(now: u64, t: u64) -> int {
    if now >= t {
        now - t
    } else {
        0
    }
}

/// The times of `ts` still inside the window at `now`, in order.
pub open spec fn recent(ts: Seq<u64>, now: u64, window: u64) -> Seq<u64>
    decreases ts.len(),
{
    if ts.len() == 0 {
        Seq::empty()
    } else if elapsed(now, ts.last()) < window {
        recent(ts.drop_last(), now, window).push(ts.last())
    } else {
        recent(ts.drop_last(), now, window)
    }
}

pub proof fn lemma_recent_len(ts: Seq<u64>, now: u64, window: u64)
    ensures
        recent(ts, now, window).len() <= ts.len(),
    decreases ts.len(),
{
    if ts.len() > 0 {
        lemma_recent_len(ts.drop_last(), now, window);
    }
}

impl RateLimiter {
    /// The times recorded for the pair (`bot`, `user`).
    pub closed spec fn history(&self, bot: Seq<char>, user: Seq<char>) -> Seq<u64> {
        match request_times(self.requests).get((bot, user)) {
            Some(t) => t,
            None => Seq::empty(),
        }
    }

    /// The most requests accepted per pair within a window.
    pub closed spec fn max(&self) -> nat {
        self.max_requests as nat
    }

    /// The window, in milliseconds.
    pub closed spec fn window(&self) -> u64 {
        self.time_window_ms
    }

    /// No pair holds more than `max` times.
    pub closed spec fn wf(&self) -> bool {
        forall|k: (Seq<char>, Seq<char>)| #[trigger] request_times(self.requests).contains_key(k) ==> request_times(
            self.requests,
        )[k].len() <= self.max_requests
    }

    /// A limiter with no recorded requests.
    pub fn new(max_requests: usize, time_window_ms: u64) -> (r: Self)
        ensures
            r.wf(),
            r.max() == max_requests,
            r.window() == time_window_ms,
            forall|b: Seq<char>, u: Seq<char>| r.history(b, u).len() == 0,
    {
        RateLimiter { requests: times_map_new(), max_requests, time_window_ms }
    }

    /// The times of `times` still inside the window at `now`.
    fn retain_recent(times: &Vec<u64>, now: u64, window: u64) -> (r: Vec<u64>)
        ensures
            r@ == recent(times@, now, window),
    {
        let mut r: Vec<u64> = Vec::new();
        let mut i: usize = 0;
        assert(times@.take(0) =~= Seq::<u64>::empty());
        while i < times.len()
            invariant
                i <= times@.len(),
                r@ == recent(times@.take(i as int), now, window),
            decreases times@.len() - i,
        {
            let t = times[i];
            let e: u64 = if now >= t {
                now - t
            } else {
                0
            };
            assert(times@.take(i + 1).drop_last() =~= times@.take(i as int));
            if e < window {
                r.push(t);
            }
            i = i + 1;
        }
        assert(times@.take(times@.len() as int) =~= times@);
        r
    }

    /// Records a request of `user_id` on `bot_id` at `now` if fewer than the
    /// maximum were accepted within the window before it; says whether it was.
    /// Times that left the window are forgotten; other pairs are untouched.
    pub fn check_rate_limit(&mut self, bot_id: &str, user_id: &str, now: u64) -> (allowed: bool)
        requires
            old(self).wf(),
        ensures
            final(self).wf(),
            final(self).max() == old(self).max(),
            final(self).window() == old(self).window(),
            allowed == (recent(old(self).history(bot_id@, user_id@), now, old(self).window()).len() < old(self).max()),
            allowed ==> final(self).history(bot_id@, user_id@) == recent(
                old(self).history(bot_id@, user_id@),
                now,
                old(self).window(),
            ).push(now),
            !allowed ==> final(self).history(bot_id@, user_id@) == recent(
                old(self).history(bot_id@, user_id@),
                now,
                old(self).window(),
            ),
            forall|b: Seq<char>, u: Seq<char>| !(b == bot_id@ && u == user_id@) ==> #[trigger] final(self).history(b, u)
                == old(self).history(b, u),
            allowed == (old(self).history(bot_id@, user_id@).filter(
                (|t: u64|
                    if now >= t {
                        now - t < old(self).window()
                    } else {
                        old(self).window() > 0
                    }),
            ).len() < old(self).max()),
            final(self).history(bot_id@, user_id@) == {
                let kept = old(self).history(bot_id@, user_id@).filter(
                    (|t: u64|
                        if now >= t {
                            now - t < old(self).window()
                        } else {
                            old(self).window() > 0
                        }),
                );
                if allowed {
                    kept.push(now)
                } else {
                    kept
                }
            },
    {
        proof {
            lemma_recent_keeps_each_in_window(old(self).history(bot_id@, user_id@), now, old(self).window());
        }
        let ghost before = request_times(self.requests);
        let stored = times_of(&self.requests, bot_id, user_id);
        let kept = Self::retain_recent(&stored, now, self.time_window_ms);
        proof {
            lemma_recent_len(stored@, now, self.time_window_ms);
        }
        let allowed = kept.len() < self.max_requests;
        let mut times = kept;
        if allowed {
            times.push(now);
        }
        set_times(&mut self.requests, bot_id, user_id, times);
        proof {
            let after = request_times(self.requests);
            assert forall|k: (Seq<char>, Seq<char>)| #[trigger] after.contains_key(k) implies after[k].len()
                <= self.max_requests by {
                if k != (bot_id@, user_id@) {
                    assert(before.contains_key(k));
                }
            }
            assert forall|b: Seq<char>, u: Seq<char>| !(b == bot_id@ && u == user_id@) implies #[trigger] self.history(
                b,
                u,
            ) == old(self).history(b, u) by {
                assert((b, u) != (bot_id@, user_id@));
            }
        }
        allowed
    }

    /// How long, from `now`, until the oldest recorded request of the pair
    /// leaves the window: 0 when nothing is recorded or it already left.
    pub fn wait_time(&self, bot_id: &str, user_id: &str, now: u64) -> (w: u64)
        ensures
            self.history(bot_id@, user_id@).len() == 0 ==> w == 0,
            self.history(bot_id@, user_id@).len() > 0 ==> w as int == {
                let remaining = self.window() - elapsed(now, self.history(bot_id@, user_id@)[0]);
                if remaining > 0 {
                    remaining
                } else {
                    0
                }
            },
    {
        let times = times_of(&self.requests, bot_id, user_id);
        if times.len() == 0 {
            return 0;
        }
        let t = times[0];
        let e: u64 = if now >= t {
            now - t
        } else {
            0
        };
        if e < self.time_window_ms {
            self.time_window_ms - e
        } else {
            0
        }
    }
}

/// Law: a limiter never holds more than its maximum of accepted requests for
/// any pair, so no pair is ever accepted more than `max` times within a window.
pub proof fn lemma_history_bounded(r: &RateLimiter, bot: Seq<char>, user: Seq<char>)
    requires
        r.wf(),
    ensures
        r.history(bot, user).len() <= r.max(),
{
    if request_times(r.requests).contains_key((bot, user)) {
        assert(request_times(r.requests).get((bot, user)) == Some(request_times(r.requests)[(bot, user)]));
    }
}

/// Law: once every recorded request of a pair has left the window, the pair
/// starts afresh: `check_rate_limit` at `now` accepts it (given a nonzero maximum).
pub proof fn lemma_window_reset(r: &RateLimiter, bot: Seq<char>, user: Seq<char>, now: u64)
    requires
        r.max() > 0,
        forall|i: int| 0 <= i < r.history(bot, user).len() ==> elapsed(now, #[trigger] r.history(bot, user)[i]) >= r.window(),
    ensures
        recent(r.history(bot, user), now, r.window()).len() == 0,
        recent(r.history(bot, user), now, r.window()).len() < r.max(),
{
    lemma_recent_all_expired(r.history(bot, user), now, r.window());
}

proof fn lemma_recent_all_expired(ts: Seq<u64>, now: u64, window: u64)
    requires
        forall|i: int| 0 <= i < ts.len() ==> elapsed(now, #[trigger] ts[i]) >= window,
    ensures
        recent(ts, now, window).len() == 0,
    decreases ts.len(),
{
    if ts.len() > 0 {
        assert(ts.last() == ts[ts.len() - 1]);
        assert forall|i: int| 0 <= i < ts.drop_last().len() implies elapsed(now, #[trigger] ts.drop_last()[i]) >= window by {
            assert(ts.drop_last()[i] == ts[i]);
        }
        lemma_recent_all_expired(ts.drop_last(), now, window);
    }
}

/// Law: the requests a check keeps are exactly the earlier ones still inside
/// the window at `now`, in their order, each judged by its own age: a request
/// made `d` milliseconds before `now` stays when `d` is less than the window
/// (a request stamped after `now` counts as made at `now`).
pub proof fn lemma_recent_keeps_each_in_window(ts: Seq<u64>, now: u64, window: u64)
    ensures
        recent(ts, now, window) == ts.filter(
            (|t: u64|
                if now >= t {
                    now - t < window
                } else {
                    window > 0
                }),
        ),
    decreases ts.len(),
{
    let pred = |t: u64|
        if now >= t {
            now - t < window
        } else {
            window > 0
        };
    reveal(Seq::filter);
    if ts.len() == 0 {
        assert(recent(ts, now, window) =~= ts.filter(pred));
    } else {
        lemma_recent_keeps_each_in_window(ts.drop_last(), now, window);
        assert(pred(ts.last()) == (elapsed(now, ts.last()) < window));
        assert(ts.filter(pred) == if pred(ts.last()) {
            ts.drop_last().filter(pred).push(ts.last())
        } else {
            ts.drop_last().filter(pred)
        });
    }
}

} // verus!
