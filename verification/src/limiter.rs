//! The fetch rate limiter: a sliding-window quota per key.
//!
//! Gossip-driven fetches are limited per `(peer, urn)` key: at most
//! `quota` acceptances within any one window.  The clock is outside
//! work; callers hand the current time in, and every decision is a
//! verified function of the window state and that time.

use vstd::prelude::*;

verus! {

/// The quota window of one `(peer, urn)` key: when it started and how
/// many fetches it has accepted since.
pub struct RateWindow {
    pub started_ms: u64,
    pub used: u64,
}

/// What one `rate_check` call did: acceptance is decided by the window
/// and the clock alone, an acceptance is counted, a turn of the window
/// resets the count, and a refusal changes nothing.
pub open spec fn rate_transition(
    pre: RateWindow,
    post: RateWindow,
    now_ms: u64,
    quota: u64,
    window_ms: u64,
    accepted: bool,
) -> bool {
    &&& accepted == !(now_ms < pre.started_ms + window_ms && pre.used >= quota)
    &&& (accepted && now_ms < pre.started_ms + window_ms ==> post.used == pre.used + 1
        && post.started_ms == pre.started_ms)
    &&& (accepted && now_ms >= pre.started_ms + window_ms ==> post.used == 1 && post.started_ms
        == now_ms)
    &&& (!accepted ==> post == pre)
}

/// Whether a fetch for this key may proceed now.
///
/// Within a window, the `quota`-th acceptance is the last: further
/// attempts are refused until the window turns.  A call at or after the
/// window's end starts a new window with this acceptance as its first.
pub fn rate_check(w: &mut RateWindow, now_ms: u64, quota: u64, window_ms: u64) -> (accepted: bool)
    requires
        1 <= quota,
        old(w).used <= quota,
    ensures
        rate_transition(*old(w), *final(w), now_ms, quota, window_ms, accepted),
        final(w).used <= quota,
{
    let in_window = match w.started_ms.checked_add(window_ms) {
        Option::Some(end) => now_ms < end,
        Option::None => true,
    };
    proof {
        assert(in_window == (now_ms < old(w).started_ms + window_ms));
    }
    if in_window {
        if w.used >= quota {
            false
        } else {
            w.used = w.used + 1;
            true
        }
    } else {
        w.started_ms = now_ms;
        w.used = 1;
        true
    }
}

/// The count of acceptances a run of within-window calls yields, and
/// the window state it leaves: `rate_check` applied in order.
pub open spec fn run_count(w: RateWindow, times: Seq<u64>, quota: u64, window_ms: u64) -> (
    RateWindow,
    nat,
)
    decreases times.len(),
{
    if times.len() == 0 {
        (w, 0nat)
    } else {
        let (w1, c1) = run_count(w, times.drop_last(), quota, window_ms);
        if times.last() < w1.started_ms + window_ms && w1.used >= quota {
            (w1, c1)
        } else if times.last() < w1.started_ms + window_ms {
            (RateWindow { started_ms: w1.started_ms, used: (w1.used + 1) as u64 }, (c1 + 1) as nat)
        } else {
            (RateWindow { started_ms: times.last(), used: 1 }, (c1 + 1) as nat)
        }
    }
}

/// At most `quota` fetches are accepted per window: a run of calls that
/// all fall inside the window begun at `w.started_ms` accepts no more
/// than the quota leaves open, and in particular the attempt after the
/// `quota`-th within the window is refused.
pub proof fn lemma_rate_quota(w: RateWindow, times: Seq<u64>, quota: u64, window_ms: u64)
    requires
        1 <= quota,
        w.used <= quota,
        forall|i: int| 0 <= i < times.len() ==> #[trigger] times[i] < w.started_ms + window_ms,
    ensures
        ({
            let (w_end, accepted) = run_count(w, times, quota, window_ms);
            &&& w_end.started_ms == w.started_ms
            &&& w_end.used <= quota
            &&& accepted == w_end.used - w.used
        }),
    decreases times.len(),
{
    if times.len() > 0 {
        lemma_rate_quota(w, times.drop_last(), quota, window_ms);
        assert(forall|i: int|
            0 <= i < times.drop_last().len() ==> #[trigger] times.drop_last()[i] == times[i]);
        assert(times.last() == times[times.len() - 1]);
    }
}

} // verus!
