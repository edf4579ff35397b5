//! The schedule of periodic updates: when the first update is due, how long
//! to sleep before each one, and when the next one is due.
use vstd::prelude::*;

verus! {

/// How long to sleep, at `now_ns`, before an update due at `next_update_ns`:
/// until then, or not at all when it is already due.
pub open spec fn sleep_before(next_update_ns: int, now_ns: int) -> int {
    if next_update_ns > now_ns {
        next_update_ns - now_ns
    } else {
        0
    }
}

/// When the first update is due, for a timer started at `now_ns`: one period
/// later.
pub fn first_deadline(now_ns: u64, period_ns: u64) -> (d: u64)
    requires
        now_ns + period_ns <= u64::MAX,
    ensures
        d == now_ns + period_ns,
{
    now_ns + period_ns
}

/// One turn of the timer at `now_ns`, with the next update due at
/// `next_update_ns`: how long to sleep before the update, and when the one
/// after it is due (one period later).
pub fn timer_step(next_update_ns: u64, now_ns: u64, period_ns: u64) -> (r: (u64, u64))
    requires
        next_update_ns + period_ns <= u64::MAX,
    ensures
        r.0 == sleep_before(next_update_ns as int, now_ns as int),
        r.1 == next_update_ns + period_ns,
{
    let sleep = if next_update_ns > now_ns {
        next_update_ns - now_ns
    } else {
        0
    };
    (sleep, next_update_ns + period_ns)
}

/// When update number `k` (from one) is due, for a timer started at
/// `start_ns`: the first deadline, then one period later for each update.
pub open spec fn deadline(start_ns: int, period_ns: int, k: nat) -> int
    decreases k,
{
    if k <= 1 {
        start_ns + period_ns
    } else {
        deadline(start_ns, period_ns, (k - 1) as nat) + period_ns
    }
}

/// Law: update number `k` (from one) is due `k` periods after the start, and
/// whenever the timer turns before running it, the sleep makes it start no
/// earlier than that.
pub proof fn lemma_updates_keep_the_period(start_ns: int, period_ns: int, k: nat, now_ns: int)
    requires
        k >= 1,
    ensures
        deadline(start_ns, period_ns, k) == start_ns + k * period_ns,
        now_ns + sleep_before(deadline(start_ns, period_ns, k), now_ns) >= start_ns + k
            * period_ns,
        sleep_before(deadline(start_ns, period_ns, k), now_ns) >= 0,
        now_ns + sleep_before(deadline(start_ns, period_ns, k), now_ns) == if now_ns > start_ns
            + k * period_ns {
            now_ns
        } else {
            start_ns + k * period_ns
        },
    decreases k,
{
    if k > 1 {
        lemma_updates_keep_the_period(start_ns, period_ns, (k - 1) as nat, now_ns);
        assert((k - 1) * period_ns + period_ns == k * period_ns) by (nonlinear_arith);
    }
}

} // verus!
