//! What holds of the controller when many clients share it: every client is
//! served from its own bucket alone, so that the laws of a single bucket
//! hold for each client whatever the others do.

use vstd::prelude::*;
use crate::admission::{BucketState, Policy, RateLimitState, NANOS_PER_SECOND};
use crate::bucket_laws::{
    lemma_burst_then_reject, lemma_one_second_bound, lemma_request_keeps_bounds,
    lemma_window_bound, lesser, within,
};

verus! {

/// One request as the controller sees it: who asks, and when.
pub struct Request {
    /// The client's identity.
    pub key: u128,
    /// The time of arrival, in nanoseconds.
    pub time: nat,
}

/// The arrival times of the requests of client `key` among `requests`, in
/// order.
pub open spec fn times_of(requests: Seq<Request>, key: u128) -> Seq<nat>
    decreases requests.len(),
{
    if requests.len() == 0 {
        Seq::empty()
    } else if requests.last().key == key {
        times_of(requests.drop_last(), key).push(requests.last().time)
    } else {
        times_of(requests.drop_last(), key)
    }
}

impl Policy {
    /// The state after `requests` have been decided, in order.
    pub open spec fn after_requests(
        self,
        state: RateLimitState,
        requests: Seq<Request>,
    ) -> RateLimitState
        decreases requests.len(),
    {
        if requests.len() == 0 {
            state
        } else {
            self.after_request(
                self.after_requests(state, requests.drop_last()),
                requests.last().key,
                requests.last().time,
            )
        }
    }

    /// Whether `requests[i]` is admitted, when `requests` are decided in
    /// order from `state` on.
    pub open spec fn admitted_request(
        self,
        state: RateLimitState,
        requests: Seq<Request>,
        i: int,
    ) -> bool {
        self.admits_client(
            self.after_requests(state, requests.take(i)),
            requests[i].key,
            requests[i].time,
        )
    }

    /// How many requests of client `key` are admitted, when `requests` are
    /// decided in order from `state` on.
    pub open spec fn admitted_of(
        self,
        state: RateLimitState,
        requests: Seq<Request>,
        key: u128,
    ) -> nat
        decreases requests.len(),
    {
        if requests.len() == 0 {
            0
        } else {
            self.admitted_of(state, requests.drop_last(), key) + if requests.last().key == key
                && self.admits_client(
                self.after_requests(state, requests.drop_last()),
                key,
                requests.last().time,
            ) {
                1nat
            } else {
                0nat
            }
        }
    }
}

/// A request leaves the controller within its bounds: if no bucket held more
/// than the capacity before, none does after, and no client is forgotten.
pub proof fn lemma_request_keeps_state_bounds(
    p: Policy,
    state: RateLimitState,
    key: u128,
    now: nat,
)
    requires
        p.bounds(state),
    ensures
        p.bounds(p.after_request(state, key, now)),
        p.after_request(state, key, now).dom() == state.dom().insert(key),
{
    lemma_request_keeps_bounds(p, p.bucket_of(state, key, now), now);
    assert(p.after_request(state, key, now).dom() =~= state.dom().insert(key));
}

/// A request of one client leaves every other client as it was: its bucket,
/// and with it the verdict on whatever it asks next.
pub proof fn lemma_other_clients_untouched(
    p: Policy,
    state: RateLimitState,
    key: u128,
    now: nat,
    other: u128,
    then: nat,
)
    requires
        other != key,
    ensures
        p.after_request(state, key, now).contains_key(other) == state.contains_key(other),
        p.bucket_of(p.after_request(state, key, now), other, then) == p.bucket_of(
            state,
            other,
            then,
        ),
        p.admits_client(p.after_request(state, key, now), other, then) == p.admits_client(
            state,
            other,
            then,
        ),
{
}

/// Requests of two different clients may be decided in either order: the
/// verdicts are the same, and so is the state afterwards.
pub proof fn lemma_different_clients_commute(
    p: Policy,
    state: RateLimitState,
    first: Request,
    second: Request,
)
    requires
        first.key != second.key,
    ensures
        p.admits_client(p.after_request(state, first.key, first.time), second.key, second.time)
            == p.admits_client(state, second.key, second.time),
        p.admits_client(p.after_request(state, second.key, second.time), first.key, first.time)
            == p.admits_client(state, first.key, first.time),
        p.after_request(
            p.after_request(state, first.key, first.time),
            second.key,
            second.time,
        ) == p.after_request(
            p.after_request(state, second.key, second.time),
            first.key,
            first.time,
        ),
{
    assert(p.after_request(
        p.after_request(state, first.key, first.time),
        second.key,
        second.time,
    ) =~= p.after_request(
        p.after_request(state, second.key, second.time),
        first.key,
        first.time,
    ));
}

/// The bucket from which the requests of client `key` among `requests` are
/// served: the client's own in `state`, or a full one if the client is new.
pub open spec fn starting_bucket(
    p: Policy,
    state: RateLimitState,
    requests: Seq<Request>,
    key: u128,
) -> BucketState {
    if state.contains_key(key) {
        state[key]
    } else if times_of(requests, key).len() > 0 {
        p.full(times_of(requests, key)[0])
    } else {
        p.full(0)
    }
}

/// Whatever the other clients do, a client is served from its own bucket
/// alone: after any requests, its bucket is what its own requests have made
/// of it, and as many of its requests were admitted as its own bucket
/// admits. A client that has asked nothing is as it was.
pub proof fn lemma_client_served_alone(
    p: Policy,
    state: RateLimitState,
    requests: Seq<Request>,
    key: u128,
)
    ensures
        times_of(requests, key).len() == 0 ==> p.after_requests(state, requests).contains_key(key)
            == state.contains_key(key),
        times_of(requests, key).len() > 0 ==> p.after_requests(state, requests).contains_key(key),
        p.after_requests(state, requests).contains_key(key) ==> p.after_requests(
            state,
            requests,
        )[key] == p.after_all(
            starting_bucket(p, state, requests, key),
            times_of(requests, key),
        ),
        p.admitted_of(state, requests, key) == p.admitted(
            starting_bucket(p, state, requests, key),
            times_of(requests, key),
        ),
    decreases requests.len(),
{
    if requests.len() > 0 {
        let before = requests.drop_last();
        let last = requests.last();
        lemma_client_served_alone(p, state, before, key);
        let earlier = times_of(before, key);
        let times = times_of(requests, key);
        let reached = p.after_requests(state, before);
        let from = starting_bucket(p, state, requests, key);
        if last.key == key {
            assert(times.drop_last() =~= earlier);
            assert(times.last() == last.time);
            if earlier.len() > 0 {
                assert(times[0] == earlier[0]);
            } else {
                assert(times[0] == last.time);
                assert(p.after_all(from, earlier) == from);
                assert(p.after_all(starting_bucket(p, state, before, key), earlier)
                    == starting_bucket(p, state, before, key));
                assert(p.admitted(from, earlier) == 0);
                assert(p.admitted(starting_bucket(p, state, before, key), earlier) == 0);
            }
            assert(p.bucket_of(reached, key, last.time) == p.after_all(from, earlier));
        }
    }
}

/// The requests of one client that arrive in a window of time are admitted
/// no more often than the burst size and the refill of the window pay for,
/// however many other clients ask in between.
pub proof fn lemma_client_window_bound(
    p: Policy,
    state: RateLimitState,
    requests: Seq<Request>,
    key: u128,
    start: nat,
    window: nat,
)
    requires
        p.bounds(state),
        within(times_of(requests, key), start, window),
    ensures
        p.admitted_of(state, requests, key) * NANOS_PER_SECOND <= p.burst_size
            * NANOS_PER_SECOND + p.per_second * window,
{
    lemma_client_served_alone(p, state, requests, key);
    lemma_window_bound(
        p,
        starting_bucket(p, state, requests, key),
        times_of(requests, key),
        start,
        window,
    );
}

/// Position by position, the controller's verdict on a request is the
/// verdict of the client's own bucket on it.
proof fn lemma_verdict_is_buckets(
    p: Policy,
    state: RateLimitState,
    requests: Seq<Request>,
    i: int,
)
    requires
        0 <= i < requests.len(),
    ensures
        times_of(requests.take(i), requests[i].key).len() < times_of(
            requests,
            requests[i].key,
        ).len(),
        times_of(requests, requests[i].key)[times_of(
            requests.take(i),
            requests[i].key,
        ).len() as int] == requests[i].time,
        p.admitted_request(state, requests, i) == p.admitted_at(
            starting_bucket(p, state, requests, requests[i].key),
            times_of(requests, requests[i].key),
            times_of(requests.take(i), requests[i].key).len() as int,
        ),
{
    let key = requests[i].key;
    let before = requests.take(i);
    let upto = requests.take(i + 1);
    let earlier = times_of(before, key);
    let times = times_of(requests, key);
    let n = earlier.len() as int;
    let from = starting_bucket(p, state, requests, key);
    lemma_times_of_prefix(requests, key, i + 1);
    assert(upto.drop_last() =~= before);
    assert(upto.last() == requests[i]);
    assert(times_of(upto, key) == earlier.push(requests[i].time));
    assert(times_of(upto, key)[n] == requests[i].time);
    assert(times.take(n + 1)[n] == times[n]);
    assert(times.take(n) =~= times.take(n + 1).take(n));
    assert(times.take(n) =~= earlier);
    lemma_client_served_alone(p, state, before, key);
    if n > 0 {
        assert(times[0] == times.take(n)[0]);
    } else {
        assert(p.after_all(from, earlier) == from);
        assert(p.after_all(starting_bucket(p, state, before, key), earlier) == starting_bucket(
            p,
            state,
            before,
            key,
        ));
    }
    assert(p.bucket_of(p.after_requests(state, before), key, requests[i].time) == p.after_all(
        from,
        earlier,
    ));
}

/// The times of a client among the first `n` requests are the first of its
/// times among all of them.
proof fn lemma_times_of_prefix(requests: Seq<Request>, key: u128, n: int)
    requires
        0 <= n <= requests.len(),
    ensures
        times_of(requests.take(n), key).len() <= times_of(requests, key).len(),
        times_of(requests.take(n), key) == times_of(requests, key).take(
            times_of(requests.take(n), key).len() as int,
        ),
    decreases requests.len(),
{
    if n == requests.len() {
        assert(requests.take(n) =~= requests);
        assert(times_of(requests, key).take(times_of(requests, key).len() as int) =~= times_of(
            requests,
            key,
        ));
    } else {
        let before = requests.drop_last();
        lemma_times_of_prefix(before, key, n);
        assert(before.take(n) =~= requests.take(n));
        let part = times_of(requests.take(n), key);
        assert(times_of(requests, key).take(part.len() as int) =~= times_of(before, key).take(
            part.len() as int,
        ));
    }
}

/// If every request of a client is admitted, as many of its requests are
/// admitted as it has made.
proof fn lemma_all_of_client_admitted(
    p: Policy,
    state: RateLimitState,
    requests: Seq<Request>,
    key: u128,
)
    requires
        forall|i: int|
            0 <= i < requests.len() && requests[i].key == key ==> p.admitted_request(
                state,
                requests,
                i,
            ),
    ensures
        p.admitted_of(state, requests, key) == times_of(requests, key).len(),
    decreases requests.len(),
{
    if requests.len() > 0 {
        let before = requests.drop_last();
        assert forall|i: int| 0 <= i < before.len() && before[i].key == key implies p.admitted_request(
            state,
            before,
            i,
        ) by {
            assert(p.admitted_request(state, requests, i));
            assert(before.take(i) =~= requests.take(i));
        }
        lemma_all_of_client_admitted(p, state, before, key);
        if requests.last().key == key {
            assert(p.admitted_request(state, requests, requests.len() - 1));
            assert(requests.take(requests.len() - 1) =~= before);
        }
    }
}

/// Of more requests than the rate and the burst size together allow, all
/// from one client and all within one second, at least one is rejected,
/// however many other clients ask in between.
pub proof fn lemma_client_one_second_bound(
    p: Policy,
    state: RateLimitState,
    requests: Seq<Request>,
    key: u128,
    start: nat,
)
    requires
        p.bounds(state),
        within(times_of(requests, key), start, NANOS_PER_SECOND as nat),
    ensures
        p.admitted_of(state, requests, key) <= p.per_second + p.burst_size,
        times_of(requests, key).len() > p.per_second + p.burst_size ==> exists|i: int|
            0 <= i < requests.len() && requests[i].key == key && !p.admitted_request(
                state,
                requests,
                i,
            ),
{
    lemma_client_served_alone(p, state, requests, key);
    lemma_one_second_bound(
        p,
        starting_bucket(p, state, requests, key),
        times_of(requests, key),
        start,
    );
    if times_of(requests, key).len() > p.per_second + p.burst_size {
        if forall|i: int|
            0 <= i < requests.len() && requests[i].key == key ==> p.admitted_request(
                state,
                requests,
                i,
            ) {
            lemma_all_of_client_admitted(p, state, requests, key);
        }
    }
}

/// A client that the controller has not seen before is admitted for exactly
/// its first `burst_size` requests and rejected from then on, as long as its
/// requests arrive within a window in which refill adds less than one
/// token, and however many other clients ask in between.
pub proof fn lemma_new_client_burst(
    p: Policy,
    state: RateLimitState,
    requests: Seq<Request>,
    key: u128,
    start: nat,
    window: nat,
)
    requires
        !state.contains_key(key),
        within(times_of(requests, key), start, window),
        p.per_second * window < NANOS_PER_SECOND,
    ensures
        forall|i: int|
            0 <= i < requests.len() && requests[i].key == key ==> (#[trigger] p.admitted_request(
                state,
                requests,
                i,
            ) <==> times_of(requests.take(i), key).len() < p.burst_size),
        p.admitted_of(state, requests, key) == lesser(
            times_of(requests, key).len(),
            p.burst_size,
        ),
{
    let bucket = starting_bucket(p, state, requests, key);
    let times = times_of(requests, key);
    lemma_client_served_alone(p, state, requests, key);
    lemma_burst_then_reject(p, bucket, times, start, window);
    assert forall|i: int| 0 <= i < requests.len() && requests[i].key == key implies (
    #[trigger] p.admitted_request(state, requests, i) <==> times_of(requests.take(i), key).len()
        < p.burst_size) by {
        lemma_verdict_is_buckets(p, state, requests, i);
        let n = times_of(requests.take(i), key).len() as int;
        assert(p.admitted_at(bucket, times, n) <==> n < p.burst_size);
    }
}

} // verus!
