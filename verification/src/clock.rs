//! Simulation of elapsed time in the simulated system.
//!
//! `BasicClock` tracks how much simulated time its callers have
//! consumed.  `MinimalSleeper` accumulates a sleep debt so that a
//! driver sleeps, on average, for the requested amounts of time
//! while issuing few actual sleeps; the actual sleeping belongs to
//! the driver, which asks the sleeper how long to sleep and reports
//! back how long it really slept.

use vstd::prelude::*;

verus! {

/// The number of nanoseconds in a second.
pub const NANOS_PER_SEC: u32 = 1_000_000_000;

/// A span of simulated time: whole seconds plus nanoseconds below
/// one second.
#[derive(Debug, Clone, Copy, PartialEq, Eq, Structural)]
pub struct Duration {
    secs: u64,
    nanos: u32,
}

impl View for Duration {
    type V = int;

    /// A duration is viewed as its total length in nanoseconds.
    closed spec fn view(&self) -> int {
        self.secs * NANOS_PER_SEC + self.nanos
    }
}

/// The largest value a duration can hold, in nanoseconds.
pub open spec fn spec_duration_max() -> int {
    u64::MAX * NANOS_PER_SEC + (NANOS_PER_SEC - 1)
}

impl Duration {
    /// Well-formedness: the nanosecond part is below one second.
    pub closed spec fn wf(&self) -> bool {
        self.nanos < NANOS_PER_SEC
    }

    /// The duration of `secs` whole seconds and `nanos` additional
    /// nanoseconds.
    pub fn new(secs: u64, nanos: u32) -> (r: Duration)
        requires
            nanos < NANOS_PER_SEC,
        ensures
            r.wf(),
            r@ == secs * NANOS_PER_SEC + nanos,
    {
        Duration { secs, nanos }
    }

    /// The zero duration.
    pub fn zero() -> (r: Duration)
        ensures
            r.wf(),
            r@ == 0,
    {
        Duration { secs: 0, nanos: 0 }
    }

    /// The duration of `millis` milliseconds.
    pub fn from_millis(millis: u64) -> (r: Duration)
        ensures
            r.wf(),
            r@ == millis * 1_000_000,
    {
        proof {
            assert((millis as int) * 1_000_000 == (millis as int / 1000) * (NANOS_PER_SEC as int)
                + (millis as int % 1000) * 1_000_000) by (nonlinear_arith);
        }
        Duration { secs: millis / 1000, nanos: (millis % 1000) as u32 * 1_000_000 }
    }

    /// The duration of `micros` microseconds.
    pub fn from_micros(micros: u64) -> (r: Duration)
        ensures
            r.wf(),
            r@ == micros * 1_000,
    {
        proof {
            assert((micros as int) * 1_000 == (micros as int / 1_000_000) * (NANOS_PER_SEC as int)
                + (micros as int % 1_000_000) * 1_000) by (nonlinear_arith);
        }
        Duration { secs: micros / 1_000_000, nanos: (micros % 1_000_000) as u32 * 1_000 }
    }

    /// The whole seconds of the duration.
    pub fn seconds(&self) -> (r: u64)
        requires
            self.wf(),
        ensures
            r == self@ / (NANOS_PER_SEC as int),
    {
        proof {
            assert(self@ / (NANOS_PER_SEC as int) == self.secs) by (nonlinear_arith)
                requires
                    self.wf(),
                    self@ == self.secs * NANOS_PER_SEC + self.nanos,
            ;
        }
        self.secs
    }

    /// The nanoseconds of the duration below one second.
    pub fn subsec_nanos(&self) -> (r: u32)
        requires
            self.wf(),
        ensures
            r == self@ % (NANOS_PER_SEC as int),
            r < NANOS_PER_SEC,
    {
        proof {
            assert(self@ % (NANOS_PER_SEC as int) == self.nanos) by (nonlinear_arith)
                requires
                    self.wf(),
                    self@ == self.secs * NANOS_PER_SEC + self.nanos,
            ;
        }
        self.nanos
    }

    /// The sum of two durations, or `None` when it does not fit.
    pub fn checked_add(&self, other: &Duration) -> (r: Option<Duration>)
        requires
            self.wf(),
            other.wf(),
        ensures
            match r {
                Some(sum) => sum.wf() && sum@ == self@ + other@,
                None => self@ + other@ > spec_duration_max(),
            },
    {
        let mut nanos = self.nanos + other.nanos;
        let carry: u64 = if nanos >= NANOS_PER_SEC {
            nanos = nanos - NANOS_PER_SEC;
            1
        } else {
            0
        };
        match self.secs.checked_add(other.secs) {
            Some(s) => match s.checked_add(carry) {
                Some(secs) => {
                    let r = Duration { secs, nanos };
                    proof {
                        assert(r@ == self@ + other@) by (nonlinear_arith)
                            requires
                                r@ == (r.secs as int) * NANOS_PER_SEC + r.nanos,
                                self@ == (self.secs as int) * NANOS_PER_SEC + self.nanos,
                                other@ == (other.secs as int) * NANOS_PER_SEC + other.nanos,
                                r.secs == self.secs + other.secs + (if self.nanos + other.nanos
                                    >= NANOS_PER_SEC {
                                    1int
                                } else {
                                    0int
                                }),
                                r.nanos == self.nanos + other.nanos - (if self.nanos + other.nanos
                                    >= NANOS_PER_SEC {
                                    NANOS_PER_SEC as int
                                } else {
                                    0int
                                }),
                        ;
                    }
                    Some(r)
                },
                None => {
                    proof {
                        lemma_duration_overflow(*self, *other);
                    }
                    None
                },
            },
            None => {
                proof {
                    lemma_duration_overflow(*self, *other);
                }
                None
            },
        }
    }

    /// The difference of two durations, or `None` when `other` is
    /// the larger.
    pub fn checked_sub(&self, other: &Duration) -> (r: Option<Duration>)
        requires
            self.wf(),
            other.wf(),
        ensures
            match r {
                Some(diff) => diff.wf() && diff@ == self@ - other@,
                None => self@ < other@,
            },
    {
        proof {
            lemma_duration_compare(*self, *other);
        }
        if self.secs < other.secs || (self.secs == other.secs && self.nanos < other.nanos) {
            return None;
        }
        let (secs, nanos) = if self.nanos >= other.nanos {
            (self.secs - other.secs, self.nanos - other.nanos)
        } else {
            ((self.secs - other.secs) - 1, (self.nanos + NANOS_PER_SEC) - other.nanos)
        };
        let r = Duration { secs, nanos };
        proof {
            assert(r@ == self@ - other@) by (nonlinear_arith)
                requires
                    r@ == (r.secs as int) * NANOS_PER_SEC + r.nanos,
                    self@ == (self.secs as int) * NANOS_PER_SEC + self.nanos,
                    other@ == (other.secs as int) * NANOS_PER_SEC + other.nanos,
                    r.secs == self.secs - other.secs - (if self.nanos >= other.nanos {
                        0int
                    } else {
                        1int
                    }),
                    r.nanos == self.nanos - other.nanos + (if self.nanos >= other.nanos {
                        0int
                    } else {
                        NANOS_PER_SEC as int
                    }),
            ;
        }
        Some(r)
    }

    /// True when this duration is longer than `other`.
    pub fn gt(&self, other: &Duration) -> (r: bool)
        requires
            self.wf(),
            other.wf(),
        ensures
            r == (self@ > other@),
    {
        proof {
            lemma_duration_compare(*self, *other);
        }
        self.secs > other.secs || (self.secs == other.secs && self.nanos > other.nanos)
    }
}

/// Lexicographic comparison of (seconds, nanoseconds) pairs agrees
/// with comparison of total nanoseconds.
proof fn lemma_duration_compare(a: Duration, b: Duration)
    requires
        a.wf(),
        b.wf(),
    ensures
        (a@ < b@) == (a.spec_secs() < b.spec_secs() || (a.spec_secs() == b.spec_secs()
            && a.spec_nanos() < b.spec_nanos())),
{
    assert((a.spec_secs() * NANOS_PER_SEC + a.spec_nanos() < b.spec_secs() * NANOS_PER_SEC
        + b.spec_nanos()) == (a.spec_secs() < b.spec_secs() || (a.spec_secs() == b.spec_secs()
        && a.spec_nanos() < b.spec_nanos()))) by (nonlinear_arith)
        requires
            a.spec_nanos() < NANOS_PER_SEC,
            b.spec_nanos() < NANOS_PER_SEC,
    ;
}

/// When the seconds of a sum overflow, the total exceeds the largest
/// representable duration.
proof fn lemma_duration_overflow(a: Duration, b: Duration)
    requires
        a.wf(),
        b.wf(),
        a.spec_secs() + b.spec_secs() + (if a.spec_nanos() + b.spec_nanos() >= NANOS_PER_SEC {
            1int
        } else {
            0int
        }) > u64::MAX,
    ensures
        a@ + b@ > spec_duration_max(),
{
    assert(a@ + b@ > u64::MAX * NANOS_PER_SEC + (NANOS_PER_SEC - 1)) by (nonlinear_arith)
        requires
            a@ == a.spec_secs() * NANOS_PER_SEC + a.spec_nanos(),
            b@ == b.spec_secs() * NANOS_PER_SEC + b.spec_nanos(),
            a.spec_nanos() < NANOS_PER_SEC,
            b.spec_nanos() < NANOS_PER_SEC,
            a.spec_secs() + b.spec_secs() + (if a.spec_nanos() + b.spec_nanos() >= NANOS_PER_SEC {
                1int
            } else {
                0int
            }) > u64::MAX,
    ;
}

impl Duration {
    /// The whole-second part, for spec use.
    pub closed spec fn spec_secs(&self) -> u64 {
        self.secs
    }

    /// The nanosecond part, for spec use.
    pub closed spec fn spec_nanos(&self) -> u32 {
        self.nanos
    }
}

/// A clock whose run rate the surrounding driver controls: it may
/// match wall-clock time or run faster or slower.
pub trait Clock {
    /// The current simulated time.
    fn now(&self) -> Duration;

    /// Record that callers consumed the interval `interval` of
    /// simulated time.
    fn consume(&mut self, interval: &Duration);
}

/// A simulated clock: the simulated elapsed time, advanced by
/// whatever its callers consume.
#[derive(Debug)]
pub struct BasicClock {
    /// Elapsed time as measured by the simulated clock.
    pub simulator_elapsed: Duration,
}

impl BasicClock {
    /// A clock that starts at zero elapsed simulated time.
    pub fn new() -> (r: BasicClock)
        ensures
            r.simulator_elapsed.wf(),
            r.simulator_elapsed@ == 0,
    {
        BasicClock { simulator_elapsed: Duration::zero() }
    }

    /// The current simulated time.
    pub fn read(&self) -> (r: Duration)
        ensures
            r == self.simulator_elapsed,
    {
        self.simulator_elapsed
    }

    /// Advance the simulated time by `interval`.
    pub fn advance(&mut self, interval: &Duration)
        requires
            old(self).simulator_elapsed.wf(),
            interval.wf(),
            old(self).simulator_elapsed@ + interval@ <= spec_duration_max(),
        ensures
            final(self).simulator_elapsed.wf(),
            final(self).simulator_elapsed@ == old(self).simulator_elapsed@ + interval@,
    {
        match self.simulator_elapsed.checked_add(interval) {
            Some(sum) => {
                self.simulator_elapsed = sum;
            },
            None => {
                proof {
                    assert(false);
                }
            },
        }
    }
}

impl Default for BasicClock {
    /// The same clock `new` builds: zero elapsed simulated time.
    fn default() -> (r: Self)
        ensures
            r.simulator_elapsed.wf(),
            r.simulator_elapsed@ == 0,
    {
        BasicClock::new()
    }
}

impl Clock for BasicClock {
    fn now(&self) -> Duration {
        self.read()
    }

    fn consume(&mut self, interval: &Duration) {
        // The trait carries no contract, so the overflow guard of
        // `advance` is tested here and saturates instead.
        if !interval.wf_exec() {
            return ;
        }
        if !self.simulator_elapsed.wf_exec() {
            return ;
        }
        match self.simulator_elapsed.checked_add(interval) {
            Some(sum) => {
                self.simulator_elapsed = sum;
            },
            None => {},
        }
    }
}

impl Duration {
    /// Whether the nanosecond part is below one second, decided at
    /// run time.
    pub fn wf_exec(&self) -> (r: bool)
        ensures
            r == self.wf(),
    {
        self.nanos < NANOS_PER_SEC
    }
}

/// A duration with a sign: the sleep debt of a `MinimalSleeper` can
/// be negative after it overslept.
#[derive(Debug, Clone, Copy, PartialEq, Eq, Structural)]
pub struct SignedDuration {
    /// True for a debt below zero.
    pub negative: bool,
    /// The absolute length.
    pub magnitude: Duration,
}

impl View for SignedDuration {
    type V = int;

    /// A signed duration is viewed as its length in nanoseconds,
    /// negated when negative.
    open spec fn view(&self) -> int {
        if self.negative {
            -(self.magnitude@)
        } else {
            self.magnitude@
        }
    }
}

impl SignedDuration {
    /// Well-formedness of the underlying duration.
    pub open spec fn wf(&self) -> bool {
        self.magnitude.wf()
    }

    /// The zero signed duration.
    pub fn zero() -> (r: SignedDuration)
        ensures
            r.wf(),
            r@ == 0,
    {
        SignedDuration { negative: false, magnitude: Duration::zero() }
    }

    /// The non-negative signed duration of length `magnitude`.
    pub fn from_duration(magnitude: Duration) -> (r: SignedDuration)
        requires
            magnitude.wf(),
        ensures
            r.wf(),
            r@ == magnitude@,
            !r.negative,
    {
        SignedDuration { negative: false, magnitude }
    }

    /// This value minus the duration `d`, or `None` when the result
    /// falls below the representable range.
    pub fn checked_sub(&self, d: Duration) -> (r: Option<SignedDuration>)
        requires
            self.wf(),
            d.wf(),
        ensures
            match r {
                Some(diff) => diff.wf() && diff@ == self@ - d@,
                None => self@ - d@ < -spec_duration_max(),
            },
    {
        if self.negative {
            match self.magnitude.checked_add(&d) {
                Some(result) => Some(SignedDuration { negative: true, magnitude: result }),
                None => None,
            }
        } else {
            match self.magnitude.checked_sub(&d) {
                Some(diff) => Some(SignedDuration { negative: false, magnitude: diff }),
                None => match d.checked_sub(&self.magnitude) {
                    Some(diff) => Some(SignedDuration { negative: true, magnitude: diff }),
                    None => {
                        proof {
                            assert(false);
                        }
                        None
                    },
                },
            }
        }
    }

    /// This value plus the duration `d`, or `None` when the result
    /// rises above the representable range.
    pub fn checked_add(&self, d: Duration) -> (r: Option<SignedDuration>)
        requires
            self.wf(),
            d.wf(),
        ensures
            match r {
                Some(sum) => sum.wf() && sum@ == self@ + d@,
                None => self@ + d@ > spec_duration_max(),
            },
    {
        if self.negative {
            match d.checked_sub(&self.magnitude) {
                Some(diff) => Some(SignedDuration { negative: false, magnitude: diff }),
                None => match self.magnitude.checked_sub(&d) {
                    Some(diff) => Some(SignedDuration { negative: true, magnitude: diff }),
                    None => {
                        proof {
                            assert(false);
                        }
                        None
                    },
                },
            }
        } else {
            match self.magnitude.checked_add(&d) {
                Some(tot) => Some(SignedDuration { negative: false, magnitude: tot }),
                None => None,
            }
        }
    }
}

/// Bookkeeping for sleeping rarely but for the right total time: a
/// sleep debt accumulates until it exceeds the minimum sleep, and
/// the driver then performs one actual sleep and reports how long it
/// really slept.
#[derive(Debug)]
pub struct MinimalSleeper {
    /// Minimum period for which the driver should bother to sleep.
    pub min_sleep: Duration,
    /// The sleep owed: requested time not yet slept, negative after
    /// oversleeping.
    pub sleep_owed: SignedDuration,
    /// The total time the driver reported actually sleeping.
    pub total_cumulative_sleep: Duration,
}

impl MinimalSleeper {
    /// A sleeper that asks for an actual sleep only once the debt
    /// exceeds `min_sleep`.
    pub fn new(min_sleep: Duration) -> (r: MinimalSleeper)
        requires
            min_sleep.wf(),
        ensures
            r.min_sleep == min_sleep,
            r.sleep_owed@ == 0,
            r.total_cumulative_sleep@ == 0,
            r.wf(),
    {
        MinimalSleeper {
            min_sleep,
            sleep_owed: SignedDuration::zero(),
            total_cumulative_sleep: Duration::zero(),
        }
    }

    /// Well-formedness of the contained durations.
    pub open spec fn wf(&self) -> bool {
        &&& self.min_sleep.wf()
        &&& self.sleep_owed.wf()
        &&& self.total_cumulative_sleep.wf()
    }

    /// Add `duration` to the sleep debt.  When the debt then
    /// exceeds the minimum sleep, the debt is returned and the
    /// driver should sleep for about that long and report back
    /// through `note_slept`; otherwise the debt keeps accumulating.
    pub fn sleep(&mut self, duration: &Duration) -> (r: Option<Duration>)
        requires
            old(self).wf(),
            duration.wf(),
            old(self).sleep_owed@ + duration@ <= spec_duration_max(),
        ensures
            final(self).wf(),
            final(self).min_sleep == old(self).min_sleep,
            final(self).total_cumulative_sleep == old(self).total_cumulative_sleep,
            final(self).sleep_owed@ == old(self).sleep_owed@ + duration@,
            r == (if old(self).sleep_owed@ + duration@ > old(self).min_sleep@ {
                Some(final(self).sleep_owed.magnitude)
            } else {
                Option::<Duration>::None
            }),
            match r {
                Some(m) => m.wf() && m@ == old(self).sleep_owed@ + duration@,
                None => true,
            },
    {
        match self.sleep_owed.checked_add(*duration) {
            Some(more) => {
                self.sleep_owed = more;
                if !self.sleep_owed.negative && self.sleep_owed.magnitude.gt(&self.min_sleep) {
                    Some(self.sleep_owed.magnitude)
                } else {
                    None
                }
            },
            None => {
                proof {
                    assert(false);
                }
                None
            },
        }
    }

    /// Record that the driver actually slept for `slept`: the debt
    /// shrinks by it and the cumulative total grows by it.
    pub fn note_slept(&mut self, slept: &Duration) -> (r: bool)
        requires
            old(self).wf(),
            slept.wf(),
        ensures
            final(self).wf(),
            final(self).min_sleep == old(self).min_sleep,
            r == (old(self).sleep_owed@ - slept@ >= -spec_duration_max()
                && old(self).total_cumulative_sleep@ + slept@ <= spec_duration_max()),
            r ==> final(self).sleep_owed@ == old(self).sleep_owed@ - slept@,
            r ==> final(self).total_cumulative_sleep@ == old(self).total_cumulative_sleep@
                + slept@,
            !r ==> *final(self) == *old(self),
    {
        match self.sleep_owed.checked_sub(*slept) {
            Some(remainder) => match self.total_cumulative_sleep.checked_add(slept) {
                Some(total) => {
                    self.sleep_owed = remainder;
                    self.total_cumulative_sleep = total;
                    true
                },
                None => false,
            },
            None => false,
        }
    }
}

} // verus!
