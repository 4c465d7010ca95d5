//! Waiting between failed accepts.
//!
//! The waits come from the `backoff` crate's exponential policy. A policy is
//! held here by what it is made of: the interval it starts from, the interval
//! it has reached, and the cap at which the interval stops growing. It has no
//! limit on the time it may go on retrying, so it always hands out a wait.
//!
//! The crate draws each wait at random around the interval reached, between
//! half of it and one and a half times it, and says how the interval grows.
//! Its cap holds the interval, not the wait drawn around it, and its intervals
//! start from half a second whatever the cap. An accept loop is to wait no
//! longer than its cap, so the drawn wait is cut down to the cap here.

use vstd::prelude::*;
use backoff::backoff::Backoff;
use core::time::Duration;

verus! {

/// The interval that the `backoff` crate's policies start from, in
/// nanoseconds: half a second.
pub const START_INTERVAL_NANOS: u128 = 500_000_000;

/// Intervals and caps below this many nanoseconds, 2^51 or some 26 days, are
/// exact in the `backoff` crate's floating-point arithmetic, and so are the
/// waits drawn around such intervals.
pub const EXACT_BELOW_NANOS: u128 = 0x8_0000_0000_0000;

/// The length of a `Duration` in nanoseconds, as `Duration::as_nanos` gives
/// it.
pub uninterp spec fn duration_nanos(d: Duration) -> u128;

/// The retry interval, in nanoseconds, that the `backoff` crate's exponential
/// policy moves on to from an interval of `current_nanos` nanoseconds, when
/// its interval is capped at `max_interval_ms` milliseconds and its multiplier
/// is the crate's default.
pub uninterp spec fn next_interval_nanos(current_nanos: u128, max_interval_ms: u64) -> u128;

/// An interval grown by half, in nanoseconds, or the cap where the interval
/// has come within a third of it: what the `backoff` crate's policy moves on
/// to where its arithmetic is exact.
pub open spec fn grown_interval_nanos(current_nanos: u128, max_interval_ms: u64) -> int {
    let cap = max_interval_ms * 1_000_000;
    if 3 * current_nanos >= 2 * cap {
        cap
    } else {
        (3 * current_nanos) / 2
    }
}

/// Calls `Duration::as_nanos`: the length of `d` in nanoseconds.
#[verifier::external_body]
fn as_nanos(d: Duration) -> (n: u128)
    ensures
        n == duration_nanos(d),
{
    d.as_nanos()
}

/// Calls `Duration::from_millis`: a duration of `ms` milliseconds, each of
/// them a million nanoseconds.
#[verifier::external_body]
fn from_millis(ms: u64) -> (d: Duration)
    ensures
        duration_nanos(d) == ms * 1_000_000,
{
    Duration::from_millis(ms)
}

/// Builds a `backoff::ExponentialBackoff` from its `Default`, with
/// `max_interval` set to `max_interval_ms` milliseconds and
/// `max_elapsed_time` set to `None`, and hands back its `initial_interval`
/// and its `current_interval`. `Default` sets both to 500 milliseconds and
/// ends with a reset, so the two are one value, whatever the cap.
#[verifier::external_body]
fn fresh_intervals(max_interval_ms: u64) -> (r: (Duration, Duration))
    ensures
        r.0 == r.1,
        duration_nanos(r.0) == START_INTERVAL_NANOS,
{
    let policy = backoff::ExponentialBackoff {
        max_interval: Duration::from_millis(max_interval_ms),
        max_elapsed_time: None,
        ..Default::default()
    };
    (policy.initial_interval, policy.current_interval)
}

/// Calls `Backoff::next_backoff` on a `backoff::ExponentialBackoff` that has
/// reached the interval `current`, is capped at `max_interval_ms`
/// milliseconds and has `max_elapsed_time` set to `None`.
///
/// Such a policy never runs out: a wait comes back. The wait is the interval
/// times a random factor between 0.5 and 1.5, plus up to one nanosecond,
/// computed in floating point and cut to whole nanoseconds. For an interval
/// below 2^51 nanoseconds that arithmetic is exact to within a few
/// nanoseconds, which is what the two bounds on the wait allow for; of a wait
/// around a longer interval nothing is claimed.
///
/// The interval the policy has moved on to comes back too. It depends on
/// `current` and the cap alone. The policy multiplies the interval by 1.5
/// unless it has come within a third of the cap, and moves it to the cap
/// then; with interval and cap below 2^51 nanoseconds that is computed
/// exactly, and an interval at or above the cap moves to the cap whatever its
/// size. Elsewhere the result is named, not computed.
#[verifier::external_body]
fn next_backoff(current: Duration, max_interval_ms: u64) -> (r: (Option<Duration>, Duration))
    ensures
        r.0 is Some,
        duration_nanos(current) < EXACT_BELOW_NANOS ==> {
            &&& duration_nanos(current) <= 2 * duration_nanos(r.0->Some_0) + 2
            &&& 2 * duration_nanos(r.0->Some_0) <= 3 * duration_nanos(current) + 8
        },
        duration_nanos(r.1) == next_interval_nanos(duration_nanos(current), max_interval_ms),
        duration_nanos(current) < EXACT_BELOW_NANOS && max_interval_ms * 1_000_000
            < EXACT_BELOW_NANOS ==> duration_nanos(r.1) == grown_interval_nanos(
            duration_nanos(current),
            max_interval_ms,
        ),
        duration_nanos(current) >= max_interval_ms * 1_000_000 ==> duration_nanos(r.1)
            == max_interval_ms * 1_000_000,
{
    let mut policy = backoff::ExponentialBackoff {
        current_interval: current,
        max_interval: Duration::from_millis(max_interval_ms),
        max_elapsed_time: None,
        ..Default::default()
    };
    let wait = policy.next_backoff();
    (wait, policy.current_interval)
}

/// Calls `Backoff::reset` on a `backoff::ExponentialBackoff` that starts from
/// the interval `initial` and has reached the interval `current`, and hands
/// back the interval it stands at afterwards: the one it starts from.
#[verifier::external_body]
fn reset_backoff(initial: Duration, current: Duration) -> (interval: Duration)
    ensures
        interval == initial,
{
    let mut policy = backoff::ExponentialBackoff {
        initial_interval: initial,
        current_interval: current,
        ..Default::default()
    };
    policy.reset();
    policy.current_interval
}

/// What an accept loop does after a failed accept.
#[derive(Clone, Copy, Debug, PartialEq, Eq)]
pub enum Retry {
    /// Sleep for the given time, then accept again.
    After(Duration),
    /// The policy has run out of retries: leave the loop.
    GiveUp,
}

/// What follows from the policy's answer: a wait is slept through, and the
/// absence of one ends the loop.
pub fn retry_for(wait: Option<Duration>) -> (retry: Retry)
    ensures
        retry == match wait {
            Some(d) => Retry::After(d),
            None => Retry::GiveUp,
        },
{
    match wait {
        Some(d) => Retry::After(d),
        None => Retry::GiveUp,
    }
}

impl Retry {
    /// The wait, cut down to `cap` where it is longer. Giving up stays giving
    /// up.
    pub fn clamped(self, cap: Duration) -> (retry: Retry)
        ensures
            retry == match self {
                Retry::After(drawn) => Retry::After(
                    if duration_nanos(drawn) > duration_nanos(cap) {
                        cap
                    } else {
                        drawn
                    },
                ),
                Retry::GiveUp => Retry::GiveUp,
            },
    {
        match self {
            Retry::After(drawn) => Retry::After(clamp_wait(drawn, cap)),
            Retry::GiveUp => Retry::GiveUp,
        }
    }
}

/// The wait to sleep through when the policy drew `drawn` and the loop is to
/// wait no longer than `cap`: the drawn wait, or the cap where that is
/// shorter.
pub fn clamp_wait(drawn: Duration, cap: Duration) -> (wait: Duration)
    ensures
        wait == if duration_nanos(drawn) > duration_nanos(cap) {
            cap
        } else {
            drawn
        },
{
    if as_nanos(drawn) > as_nanos(cap) {
        cap
    } else {
        drawn
    }
}

/// What a backoff policy is made of.
pub struct BackoffView {
    /// The interval the waits start from, in nanoseconds.
    pub initial_nanos: u128,
    /// The interval the waits have reached, in nanoseconds: the next wait is
    /// drawn around it.
    pub current_nanos: u128,
    /// The cap on the retry interval and on every wait, in milliseconds.
    pub max_interval_ms: u64,
}

impl BackoffView {
    /// A policy capped at `max_interval_ms` milliseconds that has handed out
    /// no wait yet.
    pub open spec fn fresh(max_interval_ms: u64) -> BackoffView {
        BackoffView {
            initial_nanos: START_INTERVAL_NANOS,
            current_nanos: START_INTERVAL_NANOS,
            max_interval_ms,
        }
    }

    /// The cap in nanoseconds.
    pub open spec fn cap_nanos(self) -> int {
        self.max_interval_ms * 1_000_000
    }

    /// Whether the waits are where they start from.
    pub open spec fn at_start(self) -> bool {
        self.current_nanos == self.initial_nanos
    }

    /// Whether interval and cap are small enough for the policy's
    /// arithmetic to be exact.
    pub open spec fn exact(self) -> bool {
        self.current_nanos < EXACT_BELOW_NANOS && self.cap_nanos() < EXACT_BELOW_NANOS
    }

    /// This policy after one more failed accept: the interval has grown by
    /// half, or has moved to the cap once it has come within a third of it.
    /// Only where interval or cap are too long for exact arithmetic is the
    /// interval below the cap left to the policy's own rounding.
    pub open spec fn after_failure(self) -> BackoffView {
        BackoffView {
            current_nanos: if self.exact() {
                grown_interval_nanos(self.current_nanos, self.max_interval_ms) as u128
            } else if self.current_nanos >= self.cap_nanos() {
                self.cap_nanos() as u128
            } else {
                next_interval_nanos(self.current_nanos, self.max_interval_ms)
            },
            ..self
        }
    }

    /// This policy after a successful accept: the interval is back where it
    /// starts from.
    pub open spec fn restarted(self) -> BackoffView {
        BackoffView { current_nanos: self.initial_nanos, ..self }
    }

    /// Whether a wait of `wait_nanos` nanoseconds may be handed out by this
    /// policy. No wait is longer than the cap. Around an interval below 2^51
    /// nanoseconds, a wait is at most one and a half times the interval, and
    /// it is at least half the interval unless the cap cut it short.
    pub open spec fn allows_wait(self, wait_nanos: u128) -> bool {
        &&& wait_nanos <= self.cap_nanos()
        &&& self.current_nanos < EXACT_BELOW_NANOS ==> {
            &&& 2 * wait_nanos <= 3 * self.current_nanos + 8
            &&& wait_nanos == self.cap_nanos() || self.current_nanos <= 2 * wait_nanos + 2
        }
    }
}

/// The waits of one accept loop: they grow from one failure to the next, up
/// to a cap, and start over after a success.
pub struct AcceptBackoff {
    initial: Duration,
    current: Duration,
    max_interval_ms: u64,
}

impl View for AcceptBackoff {
    type V = BackoffView;

    closed spec fn view(&self) -> BackoffView {
        BackoffView {
            initial_nanos: duration_nanos(self.initial),
            current_nanos: duration_nanos(self.current),
            max_interval_ms: self.max_interval_ms,
        }
    }
}

impl AcceptBackoff {
    /// A policy whose retry interval stops growing at `max_interval_ms`
    /// milliseconds, whose waits are no longer than that, and that never runs
    /// out of retries. Its waits are where they start from.
    pub fn new(max_interval_ms: u64) -> (b: AcceptBackoff)
        ensures
            b@ == BackoffView::fresh(max_interval_ms),
    {
        let (initial, current) = fresh_intervals(max_interval_ms);
        AcceptBackoff { initial, current, max_interval_ms }
    }

    /// The cap on the retry interval and on every wait, in milliseconds.
    pub fn cap_ms(&self) -> (ms: u64)
        ensures
            ms == self@.max_interval_ms,
    {
        self.max_interval_ms
    }

    /// The interval the waits have reached.
    pub fn interval(&self) -> (interval: Duration)
        ensures
            duration_nanos(interval) == self@.current_nanos,
    {
        self.current
    }

    /// Hands out the wait after a failed accept. There always is one: the
    /// loop is to retry for as long as accepts fail. The wait is the one the
    /// policy draws around the interval reached, cut down to the cap; the
    /// interval then moves on as the policy has it grow.
    pub fn next(&mut self) -> (retry: Retry)
        ensures
            retry matches Retry::After(wait) && old(self)@.allows_wait(duration_nanos(wait)),
            final(self)@ == old(self)@.after_failure(),
    {
        let (drawn, grown) = next_backoff(self.current, self.max_interval_ms);
        self.current = grown;
        retry_for(drawn).clamped(from_millis(self.max_interval_ms))
    }

    /// Starts the waits over after a successful accept: the interval is back
    /// at the one the waits start from.
    pub fn reset(&mut self)
        ensures
            final(self)@ == old(self)@.restarted(),
    {
        self.current = reset_backoff(self.initial, self.current);
    }
}

} // verus!
