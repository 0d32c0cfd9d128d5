//! The interruptible timed-wait protocol that sequences transitions.
//!
//! Sleeping belongs to the runner, not to this library, so the wait is a
//! state machine: the runner evaluates the breaker, hands the result to
//! [`BreakerDelay::poll`], and either sleeps for the returned interval and
//! polls again, or stops.  The protocol evaluates the breaker once before
//! any sleep and exits early the moment it holds; otherwise the total time
//! asked for is the delay rounded up to the next multiple of the polling
//! interval.
//!
//! [`MatchDelay`] is the variant for a breaker returning an arbitrary
//! value.  It reports the breaker's latest value but never exits early: it
//! polls unconditionally for the entire delay, whatever values come back.

use vstd::prelude::*;

use vstd::arithmetic::div_mod::lemma_fundamental_div_mod;
use vstd::arithmetic::div_mod::lemma_fundamental_div_mod_converse_div;
use vstd::arithmetic::div_mod::lemma_mod_add_multiples_vanish;
use vstd::arithmetic::div_mod::lemma_small_mod;

verus! {

/// What the runner of a wait should do next.
#[derive(Clone, Copy, Debug, PartialEq, Eq, Structural)]
pub enum DelayStep {
    /// Sleep this many milliseconds, evaluate the breaker, and poll again.
    Sleep(u64),
    /// The wait is over.
    Done,
}

/// Smallest multiple of `interval` that is at least `delay`.
pub open spec fn round_up(delay: int, interval: int) -> int
    recommends
        interval >= 1,
        delay >= 0,
{
    ((delay + interval - 1) / interval) * interval
}

/// In the half-open window `[delay, delay + interval)` the only multiple of
/// `interval` is the delay rounded up.
pub proof fn lemma_round_up_unique(m: int, delay: int, interval: int)
    requires
        interval >= 1,
        0 <= delay,
        delay <= m,
        m < delay + interval,
        m % interval == 0,
    ensures
        m == round_up(delay, interval),
{
    lemma_fundamental_div_mod(m, interval);
    let q = m / interval;
    assert(m == interval * q);
    assert(q * interval == interval * q) by (nonlinear_arith);
    lemma_fundamental_div_mod_converse_div(
        delay + interval - 1,
        interval,
        q,
        delay + interval - 1 - m,
    );
    assert((delay + interval - 1) / interval == q);
    assert(round_up(delay, interval) == q * interval);
}

/// The boolean-breaker wait: sleeps interval by interval until the breaker
/// holds or the delay is exhausted, exiting at once when the breaker holds
/// before the first sleep.
pub struct BreakerDelay {
    delay_ms: u64,
    interval_ms: u64,
    elapsed_ms: u64,
    finished: bool,
    broken: Ghost<bool>,
}

impl BreakerDelay {
    /// The target delay in milliseconds.
    pub closed spec fn spec_delay_ms(self) -> u64 {
        self.delay_ms
    }

    /// The polling interval in milliseconds.
    pub closed spec fn spec_interval_ms(self) -> u64 {
        self.interval_ms
    }

    /// Total sleep time asked of the runner so far, in milliseconds.
    pub closed spec fn spec_elapsed_ms(self) -> u64 {
        self.elapsed_ms
    }

    /// Whether the wait is over.
    pub closed spec fn spec_finished(self) -> bool {
        self.finished
    }

    /// Whether any poll has reported the breaker as holding.
    pub closed spec fn spec_broken(self) -> bool {
        self.broken@
    }

    /// The wait's invariant: the elapsed time is a whole number of
    /// intervals, stays under one interval past the delay, and a wait that
    /// finished without the breaker has exhausted the delay.
    pub open spec fn wf(self) -> bool {
        &&& self.spec_interval_ms() >= 1
        &&& self.spec_delay_ms() + self.spec_interval_ms() <= u64::MAX
        &&& self.spec_elapsed_ms() % self.spec_interval_ms() == 0
        &&& self.spec_elapsed_ms() < self.spec_delay_ms() + self.spec_interval_ms()
        &&& (self.spec_finished() && !self.spec_broken() ==> self.spec_elapsed_ms()
            >= self.spec_delay_ms())
    }

    /// A wait for `delay_ms`, polling every `interval_ms`.  The interval
    /// must be positive, or the wait could never advance.
    pub fn new(delay_ms: u64, interval_ms: u64) -> (r: Self)
        requires
            interval_ms >= 1,
            delay_ms + interval_ms <= u64::MAX,
        ensures
            r.wf(),
            r.spec_delay_ms() == delay_ms,
            r.spec_interval_ms() == interval_ms,
            r.spec_elapsed_ms() == 0,
            !r.spec_finished(),
            !r.spec_broken(),
    {
        proof {
            lemma_small_mod(0, interval_ms as nat);
        }
        BreakerDelay {
            delay_ms,
            interval_ms,
            elapsed_ms: 0,
            finished: false,
            broken: Ghost(false),
        }
    }

    /// One round of the protocol.  `breaker` is the breaker's value,
    /// evaluated just before the call: when it holds the wait ends at once;
    /// when the delay is exhausted the wait ends; otherwise the runner is
    /// asked to sleep one interval and poll again.
    pub fn poll(&mut self, breaker: bool) -> (r: DelayStep)
        requires
            old(self).wf(),
            !old(self).spec_finished(),
        ensures
            final(self).wf(),
            final(self).spec_delay_ms() == old(self).spec_delay_ms(),
            final(self).spec_interval_ms() == old(self).spec_interval_ms(),
            final(self).spec_broken() == (old(self).spec_broken() || breaker),
            breaker ==> r == DelayStep::Done && final(self).spec_finished()
                && final(self).spec_elapsed_ms() == old(self).spec_elapsed_ms(),
            !breaker && old(self).spec_elapsed_ms() >= old(self).spec_delay_ms() ==> r
                == DelayStep::Done && final(self).spec_finished() && final(self).spec_elapsed_ms()
                == old(self).spec_elapsed_ms(),
            !breaker && old(self).spec_elapsed_ms() < old(self).spec_delay_ms() ==> r
                == DelayStep::Sleep(old(self).spec_interval_ms()) && !final(self).spec_finished()
                && final(self).spec_elapsed_ms() == old(self).spec_elapsed_ms()
                + old(self).spec_interval_ms(),
    {
        if breaker {
            self.broken = Ghost(true);
            self.finished = true;
            DelayStep::Done
        } else if self.elapsed_ms >= self.delay_ms {
            self.finished = true;
            DelayStep::Done
        } else {
            proof {
                lemma_mod_add_multiples_vanish(self.elapsed_ms as int, self.interval_ms as int);
            }
            self.elapsed_ms = self.elapsed_ms + self.interval_ms;
            DelayStep::Sleep(self.interval_ms)
        }
    }

    /// Whether the wait is over.
    pub fn is_finished(&self) -> (r: bool)
        ensures
            r == self.spec_finished(),
    {
        self.finished
    }

    /// Total sleep time asked of the runner so far, in milliseconds.
    pub fn elapsed_ms(&self) -> (r: u64)
        ensures
            r == self.spec_elapsed_ms(),
    {
        self.elapsed_ms
    }

    /// The target delay in milliseconds.
    pub fn delay_ms(&self) -> (r: u64)
        ensures
            r == self.spec_delay_ms(),
    {
        self.delay_ms
    }

    /// The polling interval in milliseconds.
    pub fn interval_ms(&self) -> (r: u64)
        ensures
            r == self.spec_interval_ms(),
    {
        self.interval_ms
    }
}

/// A wait that the breaker never interrupted sleeps for exactly the delay
/// rounded up to the next multiple of the polling interval; in particular a
/// zero delay sleeps not at all.
pub proof fn lemma_uninterrupted_total(d: BreakerDelay)
    requires
        d.wf(),
        d.spec_finished(),
        !d.spec_broken(),
    ensures
        d.spec_elapsed_ms() == round_up(d.spec_delay_ms() as int, d.spec_interval_ms() as int),
{
    lemma_round_up_unique(
        d.spec_elapsed_ms() as int,
        d.spec_delay_ms() as int,
        d.spec_interval_ms() as int,
    );
}

/// The wait variant whose breaker returns an arbitrary value.  It keeps the
/// breaker's latest value but never exits early: whatever comes back, it
/// polls for the entire delay and only then reports the last value seen.
pub struct MatchDelay<T> {
    delay_ms: u64,
    interval_ms: u64,
    elapsed_ms: u64,
    finished: bool,
    last: Option<T>,
}

impl<T> MatchDelay<T> {
    /// The target delay in milliseconds.
    pub closed spec fn spec_delay_ms(self) -> u64 {
        self.delay_ms
    }

    /// The polling interval in milliseconds.
    pub closed spec fn spec_interval_ms(self) -> u64 {
        self.interval_ms
    }

    /// Total sleep time asked of the runner so far, in milliseconds.
    pub closed spec fn spec_elapsed_ms(self) -> u64 {
        self.elapsed_ms
    }

    /// Whether the wait is over.
    pub closed spec fn spec_finished(self) -> bool {
        self.finished
    }

    /// The latest value the breaker returned, once it was evaluated.
    pub closed spec fn spec_last(self) -> Option<T> {
        self.last
    }

    /// The wait's invariant: the elapsed time is a whole number of
    /// intervals, stays under one interval past the delay, and the wait
    /// finishes only with the delay exhausted and a value in hand.
    pub open spec fn wf(self) -> bool {
        &&& self.spec_interval_ms() >= 1
        &&& self.spec_delay_ms() + self.spec_interval_ms() <= u64::MAX
        &&& self.spec_elapsed_ms() % self.spec_interval_ms() == 0
        &&& self.spec_elapsed_ms() < self.spec_delay_ms() + self.spec_interval_ms()
        &&& (self.spec_finished() ==> self.spec_elapsed_ms() >= self.spec_delay_ms()
            && self.spec_last() is Some)
    }

    /// A wait for `delay_ms`, polling every `interval_ms`, with no value
    /// seen yet.
    pub fn new(delay_ms: u64, interval_ms: u64) -> (r: Self)
        requires
            interval_ms >= 1,
            delay_ms + interval_ms <= u64::MAX,
        ensures
            r.wf(),
            r.spec_delay_ms() == delay_ms,
            r.spec_interval_ms() == interval_ms,
            r.spec_elapsed_ms() == 0,
            !r.spec_finished(),
            r.spec_last() is None,
    {
        proof {
            lemma_small_mod(0, interval_ms as nat);
        }
        MatchDelay { delay_ms, interval_ms, elapsed_ms: 0, finished: false, last: None }
    }

    /// One round of the protocol.  `value` is the breaker's value, evaluated
    /// just before the call; it is kept as the latest value but never ends
    /// the wait early.
    pub fn poll(&mut self, value: T) -> (r: DelayStep)
        requires
            old(self).wf(),
            !old(self).spec_finished(),
        ensures
            final(self).wf(),
            final(self).spec_delay_ms() == old(self).spec_delay_ms(),
            final(self).spec_interval_ms() == old(self).spec_interval_ms(),
            final(self).spec_last() == Some(value),
            old(self).spec_elapsed_ms() >= old(self).spec_delay_ms() ==> r == DelayStep::Done
                && final(self).spec_finished()
                && final(self).spec_elapsed_ms() == old(self).spec_elapsed_ms(),
            old(self).spec_elapsed_ms() < old(self).spec_delay_ms() ==> r == DelayStep::Sleep(
                old(self).spec_interval_ms(),
            ) && !final(self).spec_finished()
                && final(self).spec_elapsed_ms() == old(self).spec_elapsed_ms()
                + old(self).spec_interval_ms(),
    {
        self.last = Some(value);
        if self.elapsed_ms >= self.delay_ms {
            self.finished = true;
            DelayStep::Done
        } else {
            proof {
                lemma_mod_add_multiples_vanish(self.elapsed_ms as int, self.interval_ms as int);
            }
            self.elapsed_ms = self.elapsed_ms + self.interval_ms;
            DelayStep::Sleep(self.interval_ms)
        }
    }

    /// Whether the wait is over.
    pub fn is_finished(&self) -> (r: bool)
        ensures
            r == self.spec_finished(),
    {
        self.finished
    }

    /// Total sleep time asked of the runner so far, in milliseconds.
    pub fn elapsed_ms(&self) -> (r: u64)
        ensures
            r == self.spec_elapsed_ms(),
    {
        self.elapsed_ms
    }

    /// The latest value the breaker returned; the wait must be over.
    pub fn result(self) -> (r: T)
        requires
            self.spec_finished(),
            self.wf(),
        ensures
            Some(r) == self.spec_last(),
    {
        self.last.unwrap()
    }
}

/// A finished value-reporting wait has slept for exactly the delay rounded
/// up to the next multiple of the polling interval: no value it saw could
/// shorten it.
pub proof fn lemma_match_delay_total<T>(d: MatchDelay<T>)
    requires
        d.wf(),
        d.spec_finished(),
    ensures
        d.spec_elapsed_ms() == round_up(d.spec_delay_ms() as int, d.spec_interval_ms() as int),
{
    lemma_round_up_unique(
        d.spec_elapsed_ms() as int,
        d.spec_delay_ms() as int,
        d.spec_interval_ms() as int,
    );
}

} // verus!
