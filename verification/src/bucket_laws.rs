//! What holds of a single bucket over a run of requests: the bound on what
//! is admitted in a window of time, and the shape of a burst.

use vstd::prelude::*;
use crate::admission::{BucketState, Policy, NANOS_PER_SECOND};

verus! {

impl Policy {
    /// The bucket `b` after requests at each of `times`, in order.
    pub open spec fn after_all(self, b: BucketState, times: Seq<nat>) -> BucketState
        decreases times.len(),
    {
        if times.len() == 0 {
            b
        } else {
            self.settle(self.after_all(b, times.drop_last()), times.last())
        }
    }

    /// Whether the request at `times[i]` is admitted, when requests arrive
    /// at a bucket `b` at each of `times`, in order.
    pub open spec fn admitted_at(self, b: BucketState, times: Seq<nat>, i: int) -> bool {
        self.admits(self.after_all(b, times.take(i)), times[i])
    }

    /// How many of the requests at `times` are admitted, when they arrive at
    /// a bucket `b` in order.
    pub open spec fn admitted(self, b: BucketState, times: Seq<nat>) -> nat
        decreases times.len(),
    {
        if times.len() == 0 {
            0
        } else {
            self.admitted(b, times.drop_last()) + if self.admits(
                self.after_all(b, times.drop_last()),
                times.last(),
            ) {
                1nat
            } else {
                0nat
            }
        }
    }
}

/// All of `times` lie in the window that starts at `start` and is `window`
/// nanoseconds long, both ends included.
pub open spec fn within(times: Seq<nat>, start: nat, window: nat) -> bool {
    forall|i: int| 0 <= i < times.len() ==> start <= #[trigger] times[i] <= start + window
}

/// What a bucket can still pay out up to time `end`: what it holds, and what
/// refill can add from its stamp on.
spec fn reach(p: Policy, b: BucketState, end: nat) -> int {
    b.credit + p.per_second * (if end > b.stamp {
        end - b.stamp
    } else {
        0
    })
}

proof fn lemma_gain_splits(rate: nat, from: nat, mid: nat, to: nat)
    requires
        from <= mid <= to,
    ensures
        (mid - from) * rate + rate * (to - mid) == rate * (to - from),
        rate * (to - mid) <= rate * (to - from),
        0 <= rate * (to - mid),
{
    assert((mid - from) * rate + rate * (to - mid) == rate * (to - from)) by (nonlinear_arith);
    assert(0 <= (mid - from) * rate) by (nonlinear_arith)
        requires
            from <= mid,
    ;
    assert(0 <= rate * (to - mid)) by (nonlinear_arith)
        requires
            mid <= to,
    ;
}

/// Refill up to a time before `end` adds to a bucket no more than it takes
/// from what refill can still add, and never lowers the credit.
proof fn lemma_refill_keeps_reach(p: Policy, b: BucketState, now: nat, end: nat)
    requires
        b.credit <= p.capacity(),
        now <= end,
    ensures
        reach(p, p.refill(b, now), end) <= reach(p, b, end),
        b.credit <= p.refill(b, now).credit <= p.capacity(),
        p.refill(b, now).stamp >= now,
        p.refill(b, now).stamp >= b.stamp,
{
    if now > b.stamp {
        lemma_gain_splits(p.per_second, b.stamp, now, end);
    }
}

/// A request before `end` lowers what the bucket can still pay out by a
/// whole token if it is admitted, and does not raise it otherwise.
proof fn lemma_settle_pays(p: Policy, b: BucketState, now: nat, end: nat)
    requires
        b.credit <= p.capacity(),
        now <= end,
    ensures
        reach(p, p.settle(b, now), end) + (if p.admits(b, now) {
            NANOS_PER_SECOND as int
        } else {
            0
        }) <= reach(p, b, end),
        p.settle(b, now).credit <= p.capacity(),
        p.settle(b, now).stamp >= now,
        p.settle(b, now).stamp >= b.stamp,
        p.admits(b, now) ==> p.settle(b, now).credit + NANOS_PER_SECOND >= b.credit,
        !p.admits(b, now) ==> p.settle(b, now).credit >= b.credit,
{
    lemma_refill_keeps_reach(p, b, now, end);
}

/// Once a request inside the window has been served, the bucket can pay out
/// at most its capacity and the refill of one window.
proof fn lemma_reach_inside_window(p: Policy, b: BucketState, start: nat, window: nat)
    requires
        b.credit <= p.capacity(),
        b.stamp >= start,
    ensures
        reach(p, b, start + window) <= p.capacity() + p.per_second * window,
{
    let end = start + window;
    if end > b.stamp {
        lemma_gain_splits(p.per_second, start, b.stamp, end);
    } else {
        assert(0 <= p.per_second * window) by (nonlinear_arith);
    }
}

/// Refill is monotonic in time and never faster than the rate: it moves the
/// stamp forward only, it adds to the credit no more than the rate pays for
/// the time by which the stamp moved, and it stops at the capacity.
pub proof fn lemma_refill_monotonic_and_bounded(p: Policy, b: BucketState, now: nat)
    requires
        b.credit <= p.capacity(),
    ensures
        p.refill(b, now).stamp >= b.stamp,
        p.refill(b, now).stamp >= now,
        b.credit <= p.refill(b, now).credit <= p.capacity(),
        p.refill(b, now).credit - b.credit <= p.per_second * (p.refill(b, now).stamp - b.stamp),
{
    if now > b.stamp {
        assert((now - b.stamp) * p.per_second == p.per_second * (now - b.stamp))
            by (nonlinear_arith);
        assert(0 <= p.per_second * (now - b.stamp)) by (nonlinear_arith)
            requires
                now > b.stamp,
        ;
    } else {
        assert(p.per_second * (b.stamp - b.stamp) == 0) by (nonlinear_arith);
    }
}

/// A request leaves a bucket within its bounds: the token count stays
/// between zero and the burst size, and an admitted request costs exactly
/// one token of what refill had made available.
pub proof fn lemma_request_keeps_bounds(p: Policy, b: BucketState, now: nat)
    requires
        b.credit <= p.capacity(),
    ensures
        p.settle(b, now).credit <= p.capacity(),
        p.settle(b, now).credit / (NANOS_PER_SECOND as nat) <= p.burst_size,
        p.settle(b, now).stamp == p.refill(b, now).stamp,
        p.admits(b, now) ==> p.settle(b, now).credit + NANOS_PER_SECOND == p.refill(
            b,
            now,
        ).credit,
        !p.admits(b, now) ==> p.settle(b, now) == p.refill(b, now),
{
    lemma_refill_monotonic_and_bounded(p, b, now);
    let left = p.settle(b, now).credit;
    assert(left / (NANOS_PER_SECOND as nat) <= p.burst_size) by (nonlinear_arith)
        requires
            left <= p.burst_size * NANOS_PER_SECOND,
            NANOS_PER_SECOND == 1_000_000_000,
    ;
}

/// The invariant of a run inside a window.
proof fn lemma_run_in_window(p: Policy, b: BucketState, times: Seq<nat>, start: nat, window: nat)
    requires
        b.credit <= p.capacity(),
        within(times, start, window),
    ensures
        p.after_all(b, times).credit <= p.capacity(),
        p.after_all(b, times).stamp >= b.stamp,
        times.len() > 0 ==> p.after_all(b, times).stamp >= start,
        times.len() > 0 ==> reach(p, p.after_all(b, times), start + window) + p.admitted(b, times)
            * NANOS_PER_SECOND <= p.capacity() + p.per_second * window,
        p.after_all(b, times).credit + p.admitted(b, times) * NANOS_PER_SECOND >= b.credit,
    decreases times.len(),
{
    if times.len() > 0 {
        let before = times.drop_last();
        let now = times.last();
        let end = start + window;
        assert(within(before, start, window)) by {
            assert forall|i: int| 0 <= i < before.len() implies start <= #[trigger] before[i]
                <= start + window by {
                assert(before[i] == times[i]);
            }
        }
        lemma_run_in_window(p, b, before, start, window);
        let mid = p.after_all(b, before);
        lemma_settle_pays(p, mid, now, end);
        if before.len() == 0 {
            let served = p.refill(mid, now);
            lemma_refill_keeps_reach(p, mid, now, end);
            lemma_reach_inside_window(p, served, start, window);
        }
    }
}

/// In any window of time, a bucket admits no more requests than its burst
/// size and the refill of the window pay for, whatever the bucket held
/// before and in whatever order the requests are stamped.
pub proof fn lemma_window_bound(
    p: Policy,
    b: BucketState,
    times: Seq<nat>,
    start: nat,
    window: nat,
)
    requires
        b.credit <= p.capacity(),
        within(times, start, window),
    ensures
        p.admitted(b, times) * NANOS_PER_SECOND <= p.burst_size * NANOS_PER_SECOND + p.per_second
            * window,
{
    lemma_run_in_window(p, b, times, start, window);
    if times.len() > 0 {
        let last = p.after_all(b, times);
        assert(0 <= p.per_second * (if start + window > last.stamp {
            start + window - last.stamp
        } else {
            0
        })) by (nonlinear_arith);
    } else {
        assert(0 <= p.per_second * window) by (nonlinear_arith);
        assert(0 <= p.burst_size * NANOS_PER_SECOND) by (nonlinear_arith);
    }
}

/// If every request of a run is admitted, the run admits as many requests as
/// it has.
proof fn lemma_all_admitted(p: Policy, b: BucketState, times: Seq<nat>)
    requires
        forall|i: int| 0 <= i < times.len() ==> p.admitted_at(b, times, i),
    ensures
        p.admitted(b, times) == times.len(),
    decreases times.len(),
{
    if times.len() > 0 {
        let before = times.drop_last();
        assert forall|i: int| 0 <= i < before.len() implies p.admitted_at(b, before, i) by {
            assert(p.admitted_at(b, times, i));
            assert(before.take(i) =~= times.take(i));
        }
        lemma_all_admitted(p, b, before);
        assert(p.admitted_at(b, times, times.len() - 1));
        assert(times.take(times.len() - 1) =~= before);
    }
}

/// Of more requests than the rate and the burst size together allow, all
/// from one client and all within one second, at least one is rejected.
pub proof fn lemma_one_second_bound(p: Policy, b: BucketState, times: Seq<nat>, start: nat)
    requires
        b.credit <= p.capacity(),
        within(times, start, NANOS_PER_SECOND as nat),
    ensures
        p.admitted(b, times) <= p.per_second + p.burst_size,
        times.len() > p.per_second + p.burst_size ==> exists|i: int|
            0 <= i < times.len() && !p.admitted_at(b, times, i),
{
    lemma_window_bound(p, b, times, start, NANOS_PER_SECOND as nat);
    if times.len() > p.per_second + p.burst_size {
        if forall|i: int| 0 <= i < times.len() ==> p.admitted_at(b, times, i) {
            lemma_all_admitted(p, b, times);
        }
    }
}

/// The lesser of two numbers.
pub open spec fn lesser(a: nat, b: nat) -> nat {
    if a <= b {
        a
    } else {
        b
    }
}

/// In a window too short for refill to add a whole token, a bucket that was
/// full and has since admitted as many requests as its burst size allows
/// rejects the next one, and admits it otherwise.
proof fn lemma_burst_step(
    p: Policy,
    b: BucketState,
    before: Seq<nat>,
    now: nat,
    start: nat,
    window: nat,
)
    requires
        b.credit == p.capacity(),
        within(before, start, window),
        start <= now <= start + window,
        p.per_second * window < NANOS_PER_SECOND,
        p.admitted(b, before) == lesser(before.len(), p.burst_size),
    ensures
        p.admits(p.after_all(b, before), now) <==> before.len() < p.burst_size,
{
    let end = start + window;
    let mid = p.after_all(b, before);
    lemma_run_in_window(p, b, before, start, window);
    lemma_refill_keeps_reach(p, mid, now, end);
    let served = p.refill(mid, now);
    if before.len() >= p.burst_size {
        if before.len() > 0 {
            assert(0 <= p.per_second * (if end > served.stamp {
                end - served.stamp
            } else {
                0
            })) by (nonlinear_arith);
        }
    }
}

/// How many requests a full bucket admits in so short a window.
proof fn lemma_burst_count(p: Policy, b: BucketState, times: Seq<nat>, start: nat, window: nat)
    requires
        b.credit == p.capacity(),
        within(times, start, window),
        p.per_second * window < NANOS_PER_SECOND,
    ensures
        p.admitted(b, times) == lesser(times.len(), p.burst_size),
    decreases times.len(),
{
    if times.len() > 0 {
        let before = times.drop_last();
        assert(within(before, start, window)) by {
            assert forall|i: int| 0 <= i < before.len() implies start <= #[trigger] before[i]
                <= start + window by {
                assert(before[i] == times[i]);
            }
        }
        lemma_burst_count(p, b, before, start, window);
        assert(start <= times[times.len() - 1] <= start + window);
        lemma_burst_step(p, b, before, times.last(), start, window);
    }
}

/// A full bucket, such as that of a client not seen before, admits exactly
/// as many consecutive requests as its burst size, and rejects every
/// request after them, as long as all of them arrive within a window in
/// which refill adds less than one token.
pub proof fn lemma_burst_then_reject(
    p: Policy,
    b: BucketState,
    times: Seq<nat>,
    start: nat,
    window: nat,
)
    requires
        b.credit == p.capacity(),
        within(times, start, window),
        p.per_second * window < NANOS_PER_SECOND,
    ensures
        forall|i: int|
            0 <= i < times.len() ==> (#[trigger] p.admitted_at(b, times, i) <==> i
                < p.burst_size),
        p.admitted(b, times) == lesser(times.len(), p.burst_size),
{
    lemma_burst_count(p, b, times, start, window);
    assert forall|i: int| 0 <= i < times.len() implies (#[trigger] p.admitted_at(b, times, i)
        <==> i < p.burst_size) by {
        let before = times.take(i);
        assert(within(before, start, window)) by {
            assert forall|j: int| 0 <= j < before.len() implies start <= #[trigger] before[j]
                <= start + window by {
                assert(before[j] == times[j]);
            }
        }
        lemma_burst_count(p, b, before, start, window);
        assert(start <= times[i] <= start + window);
        lemma_burst_step(p, b, before, times[i], start, window);
    }
}

} // verus!
