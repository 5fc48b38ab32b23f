//! The admission controller: a token bucket per client.
//!
//! Every client owns a bucket that starts full, refills continuously at the
//! configured rate up to the configured burst size, and pays one token for
//! each admitted request. Time is a count of nanoseconds on a monotonic
//! clock of the caller's; tokens are counted in billionths, so that refill
//! is exact at that resolution.

use vstd::prelude::*;
use std::collections::HashMap;

verus! {

/// Nanoseconds in a second, and billionths in a token.
pub const NANOS_PER_SECOND: u64 = 1_000_000_000;

/// The refill rate, in tokens per second, where none is configured.
pub const DEFAULT_PER_SECOND: u32 = 3;

/// The burst size, in tokens, where none is configured.
pub const DEFAULT_BURST_SIZE: u32 = 10;

/// The verdict on one request.
#[derive(Clone, Copy, Debug, PartialEq, Eq, Structural)]
pub enum Decision {
    /// The request may proceed to the handler.
    Admit,
    /// The request is turned away with "Too Many Requests".
    Reject,
}

/// A rate limit as a mathematical value.
pub struct Policy {
    /// Tokens that a bucket gains per second.
    pub per_second: nat,
    /// Tokens that a bucket holds at most.
    pub burst_size: nat,
}

/// A bucket as a mathematical value.
pub struct BucketState {
    /// The tokens in the bucket, in billionths of a token.
    pub credit: nat,
    /// The time up to which refill has been accounted for, in nanoseconds.
    pub stamp: nat,
}

/// The state of the controller as a mathematical value: the bucket of every
/// client that has been seen.
pub type RateLimitState = Map<u128, BucketState>;

impl Policy {
    /// Both the rate and the burst size are positive.
    pub open spec fn valid(self) -> bool {
        self.per_second > 0 && self.burst_size > 0
    }

    /// The most that a bucket holds, in billionths of a token.
    pub open spec fn capacity(self) -> nat {
        self.burst_size * NANOS_PER_SECOND as nat
    }

    /// A bucket that is full at time `now`.
    pub open spec fn full(self, now: nat) -> BucketState {
        BucketState { credit: self.capacity(), stamp: now }
    }

    /// The bucket `b` with the refill up to time `now` added: one billionth
    /// of a token per nanosecond and unit of rate, never beyond the
    /// capacity. A time that is not after the bucket's stamp adds nothing.
    pub open spec fn refill(self, b: BucketState, now: nat) -> BucketState {
        if now > b.stamp {
            let raised = b.credit + (now - b.stamp) * self.per_second;
            BucketState {
                credit: if raised > self.capacity() {
                    self.capacity()
                } else {
                    raised as nat
                },
                stamp: now,
            }
        } else {
            b
        }
    }

    /// Whether a request at time `now` finds a whole token in `b`.
    pub open spec fn admits(self, b: BucketState, now: nat) -> bool {
        self.refill(b, now).credit >= NANOS_PER_SECOND as nat
    }

    /// The bucket `b` after a request at time `now`: refilled, and one token
    /// poorer if the request was admitted.
    pub open spec fn settle(self, b: BucketState, now: nat) -> BucketState {
        let r = self.refill(b, now);
        if r.credit >= NANOS_PER_SECOND as nat {
            BucketState { credit: (r.credit - NANOS_PER_SECOND as nat) as nat, stamp: r.stamp }
        } else {
            r
        }
    }

    /// The bucket that a request of client `key` at time `now` draws on:
    /// the client's own, or a full one if the client is new.
    pub open spec fn bucket_of(self, state: RateLimitState, key: u128, now: nat) -> BucketState {
        if state.contains_key(key) {
            state[key]
        } else {
            self.full(now)
        }
    }

    /// No bucket in `state` holds more than the capacity.
    pub open spec fn bounds(self, state: RateLimitState) -> bool {
        forall|key: u128| #[trigger]
            state.contains_key(key) ==> state[key].credit <= self.capacity()
    }

    /// Whether a request of client `key` at time `now` is admitted in `state`.
    pub open spec fn admits_client(self, state: RateLimitState, key: u128, now: nat) -> bool {
        self.admits(self.bucket_of(state, key, now), now)
    }

    /// The state after a request of client `key` at time `now`. Only that
    /// client's bucket changes.
    pub open spec fn after_request(
        self,
        state: RateLimitState,
        key: u128,
        now: nat,
    ) -> RateLimitState {
        state.insert(key, self.settle(self.bucket_of(state, key, now), now))
    }
}

/// A rate limit: tokens gained per second, and the most tokens held. Both
/// are positive.
#[derive(Clone, Copy, Debug)]
pub struct RateLimitConfig {
    per_second: u32,
    burst_size: u32,
}

impl View for RateLimitConfig {
    type V = Policy;

    closed spec fn view(&self) -> Policy {
        Policy { per_second: self.per_second as nat, burst_size: self.burst_size as nat }
    }
}

impl RateLimitConfig {
    #[verifier::type_invariant]
    spec fn positive(self) -> bool {
        self.per_second > 0 && self.burst_size > 0
    }

    /// A rate limit of `per_second` tokens per second with bursts of up to
    /// `burst_size` tokens, or `None` if either is zero.
    pub fn new(per_second: u32, burst_size: u32) -> (config: Option<RateLimitConfig>)
        ensures
            config is Some <==> per_second > 0 && burst_size > 0,
            config matches Some(c) ==> c@ == (Policy {
                per_second: per_second as nat,
                burst_size: burst_size as nat,
            }),
    {
        if per_second > 0 && burst_size > 0 {
            Some(RateLimitConfig { per_second, burst_size })
        } else {
            None
        }
    }

    /// The rate limit for the given settings, each of which falls back on
    /// its default where it is absent; `None` if either comes out as zero.
    pub fn from_settings(per_second: Option<u32>, burst_size: Option<u32>) -> (config: Option<
        RateLimitConfig,
    >)
        ensures
            config is Some <==> per_second != Some(0u32) && burst_size != Some(0u32),
            config matches Some(c) ==> c@ == (Policy {
                per_second: match per_second {
                    Some(n) => n as nat,
                    None => DEFAULT_PER_SECOND as nat,
                },
                burst_size: match burst_size {
                    Some(n) => n as nat,
                    None => DEFAULT_BURST_SIZE as nat,
                },
            }),
    {
        let rate = match per_second {
            Some(n) => n,
            None => DEFAULT_PER_SECOND,
        };
        let burst = match burst_size {
            Some(n) => n,
            None => DEFAULT_BURST_SIZE,
        };
        RateLimitConfig::new(rate, burst)
    }

    /// Tokens gained per second.
    pub fn per_second(&self) -> (n: u32)
        ensures
            n as nat == self@.per_second,
            n > 0,
    {
        proof {
            use_type_invariant(self);
        }
        self.per_second
    }

    /// The most tokens that a bucket holds.
    pub fn burst_size(&self) -> (n: u32)
        ensures
            n as nat == self@.burst_size,
            n > 0,
    {
        proof {
            use_type_invariant(self);
        }
        self.burst_size
    }

    /// The most that a bucket holds, in billionths of a token.
    fn capacity(&self) -> (c: u64)
        ensures
            c as nat == self@.capacity(),
    {
        self.burst_size as u64 * NANOS_PER_SECOND
    }
}

impl Default for RateLimitConfig {
    /// Three tokens per second, bursts of up to ten.
    fn default() -> (config: RateLimitConfig)
        ensures
            config@ == (Policy {
                per_second: DEFAULT_PER_SECOND as nat,
                burst_size: DEFAULT_BURST_SIZE as nat,
            }),
    {
        RateLimitConfig { per_second: DEFAULT_PER_SECOND, burst_size: DEFAULT_BURST_SIZE }
    }
}

/// The bucket of one client.
#[derive(Clone, Copy, Debug)]
pub struct Bucket {
    credit: u64,
    stamp: u64,
}

impl View for Bucket {
    type V = BucketState;

    closed spec fn view(&self) -> BucketState {
        BucketState { credit: self.credit as nat, stamp: self.stamp as nat }
    }
}

impl Bucket {
    /// The whole tokens in the bucket.
    pub fn tokens(&self) -> (n: u64)
        ensures
            n as nat == self@.credit / (NANOS_PER_SECOND as nat),
    {
        self.credit / NANOS_PER_SECOND
    }

    /// The tokens in the bucket, in billionths of a token.
    pub fn credit(&self) -> (n: u64)
        ensures
            n as nat == self@.credit,
    {
        self.credit
    }

    /// The time of the last refill, in nanoseconds.
    pub fn last_refill(&self) -> (t: u64)
        ensures
            t as nat == self@.stamp,
    {
        self.stamp
    }

    /// Refills the bucket up to `now` and takes a token if there is one.
    fn settle(self, config: &RateLimitConfig, now: u64) -> (settled: (Bucket, Decision))
        requires
            self@.credit <= config@.capacity(),
        ensures
            settled.0@ == config@.settle(self@, now as nat),
            settled.0@.credit <= config@.capacity(),
            (settled.1 == Decision::Admit) == config@.admits(self@, now as nat),
    {
        let cap = config.capacity();
        let mut credit = self.credit;
        let mut stamp = self.stamp;
        if now > stamp {
            let elapsed: u64 = now - stamp;
            let rate: u32 = config.per_second();
            assert(elapsed as u128 * rate as u128 <= 0xffff_ffff_ffff_ffff * 0xffff_ffff)
                by (nonlinear_arith)
                requires
                    elapsed <= 0xffff_ffff_ffff_ffff,
                    rate <= 0xffff_ffff,
            ;
            let raised: u128 = credit as u128 + elapsed as u128 * rate as u128;
            credit = if raised > cap as u128 {
                cap
            } else {
                raised as u64
            };
            stamp = now;
        }
        if credit >= NANOS_PER_SECOND {
            (Bucket { credit: credit - NANOS_PER_SECOND, stamp }, Decision::Admit)
        } else {
            (Bucket { credit, stamp }, Decision::Reject)
        }
    }
}

/// The admission controller: the rate limit and the bucket of every client
/// seen so far. No bucket ever holds more than the burst size.
pub struct AdmissionController {
    config: RateLimitConfig,
    buckets: HashMap<u128, Bucket>,
}

impl View for AdmissionController {
    type V = RateLimitState;

    closed spec fn view(&self) -> RateLimitState {
        self.buckets@.map_values(|b: Bucket| b@)
    }
}

impl AdmissionController {
    #[verifier::type_invariant]
    spec fn within_capacity(self) -> bool {
        forall|key: u128| #[trigger]
            self.buckets@.contains_key(key) ==> self.buckets@[key]@.credit
                <= self.config@.capacity()
    }

    /// The rate limit in force.
    pub closed spec fn policy(self) -> Policy {
        self.config@
    }

    /// A controller that has seen no client yet.
    pub fn new(config: RateLimitConfig) -> (controller: AdmissionController)
        ensures
            controller.policy() == config@,
            controller@ == Map::<u128, BucketState>::empty(),
            controller.policy().bounds(controller@),
    {
        let controller = AdmissionController { config, buckets: HashMap::new() };
        assert(controller@ =~= Map::<u128, BucketState>::empty());
        controller
    }

    /// The rate limit in force.
    pub fn config(&self) -> (config: RateLimitConfig)
        ensures
            config@ == self.policy(),
    {
        self.config
    }

    /// Decides on a request of client `key` that arrives at time `now`
    /// (nanoseconds on the caller's monotonic clock), and charges the
    /// client's bucket for it. A client that has not been seen before starts
    /// with a full bucket. No other client's bucket changes, and the rate
    /// limit stays as it is.
    pub fn decide(&mut self, key: u128, now: u64) -> (decision: Decision)
        ensures
            final(self).policy() == old(self).policy(),
            (decision == Decision::Admit) == old(self).policy().admits_client(
                old(self)@,
                key,
                now as nat,
            ),
            final(self)@ == old(self).policy().after_request(old(self)@, key, now as nat),
            final(self).policy().bounds(final(self)@),
    {
        proof {
            use_type_invariant(&*self);
        }
        let current = match self.buckets.get(&key) {
            Some(bucket) => *bucket,
            None => Bucket { credit: self.config.capacity(), stamp: now },
        };
        let (settled, decision) = current.settle(&self.config, now);
        // The map leaves the controller for the update, so that the
        // controller is whole at every point where `insert` could unwind.
        let mut buckets: HashMap<u128, Bucket> = HashMap::new();
        std::mem::swap(&mut self.buckets, &mut buckets);
        buckets.insert(key, settled);
        self.buckets = buckets;
        assert(self@ =~= old(self).policy().after_request(old(self)@, key, now as nat));
        decision
    }

    /// The bucket of client `key` as the last request left it, if the client
    /// has been seen. It holds at most the burst size.
    pub fn bucket(&self, key: u128) -> (bucket: Option<Bucket>)
        ensures
            bucket is Some <==> self@.contains_key(key),
            bucket matches Some(b) ==> b@ == self@[key] && b@.credit <= self.policy().capacity(),
    {
        proof {
            use_type_invariant(self);
        }
        match self.buckets.get(&key) {
            Some(bucket) => Some(*bucket),
            None => None,
        }
    }

    /// The number of clients seen so far.
    pub fn clients(&self) -> (n: usize)
        ensures
            n as nat == self@.dom().len(),
    {
        assert(self@.dom() =~= self.buckets@.dom());
        self.buckets.len()
    }
}

} // verus!
