//! Prediction of a task's next CPU burst from an exponentially weighted history,
//! and the time quantum derived from it.
use vstd::prelude::*;
use super::policy::{Class, Priority};

verus! {

/// Expected length of the next burst.
#[derive(Clone, Copy, Debug, PartialEq, Eq, Structural)]
pub enum BurstClass {
    Tiny,
    Short,
    Medium,
    Long,
    Blocking,
    Unknown,
}

/// A prediction: mean and spread of bursts, confidence (samples seen, at most 255)
/// and class.
#[derive(Clone, Copy, Debug, PartialEq, Eq, Structural)]
pub struct Prediction {
    pub mean_ns: u64,
    pub variance_ns: u64,
    pub confidence: u8,
    pub class: BurstClass,
}

/// Running statistics of a task's bursts and how often it blocks.
#[derive(Clone, Copy, Debug)]
pub struct BurstPredictor {
    mean: u64,
    variance: u64,
    samples: u32,
    last_burst: u64,
    blocking_score: u32,
}

/// The class of a mean burst length, unless the task blocks often.
pub open spec fn burst_class(blocking_score: u32, mean: u64) -> BurstClass {
    if blocking_score > 8 {
        BurstClass::Blocking
    } else if mean < 500_000 {
        BurstClass::Tiny
    } else if mean < 2_000_000 {
        BurstClass::Short
    } else if mean < 10_000_000 {
        BurstClass::Medium
    } else {
        BurstClass::Long
    }
}

/// Three times `v`, saturated at `u64::MAX`.
pub open spec fn triple_saturated(v: u64) -> u64 {
    if v * 3 > u64::MAX {
        u64::MAX
    } else {
        (v * 3) as u64
    }
}

/// Quotient by 4 rounded toward zero.
pub open spec fn quarter_toward_zero(x: int) -> int {
    if x >= 0 {
        x / 4
    } else {
        -((-x) / 4)
    }
}

/// Quantum after the burst-class adjustment: halved for tiny bursts, three quarters
/// for short, doubled for long.
pub open spec fn burst_scaled(base: int, c: BurstClass) -> int {
    match c {
        BurstClass::Tiny => base / 2,
        BurstClass::Short => base * 3 / 4,
        BurstClass::Long => base * 2,
        _ => base,
    }
}

/// Quantum after the task-class adjustment: halved for real-time, three quarters for
/// interactive, doubled for background.
pub open spec fn class_scaled(q: int, class: Class) -> int {
    match class {
        Class::RealTime => q / 2,
        Class::Interactive => q * 3 / 4,
        Class::Background => q * 2,
        _ => q,
    }
}

impl BurstPredictor {
    /// Mean burst so far.
    pub closed spec fn mean_spec(&self) -> u64 {
        self.mean
    }

    /// Spread of bursts so far.
    pub closed spec fn variance_spec(&self) -> u64 {
        self.variance
    }

    /// Bursts observed (saturating).
    pub closed spec fn samples_spec(&self) -> u32 {
        self.samples
    }

    /// The last burst observed.
    pub closed spec fn last_burst_spec(&self) -> u64 {
        self.last_burst
    }

    /// Evidence that the task blocks, from 0 to 100.
    pub closed spec fn blocking_spec(&self) -> u32 {
        self.blocking_score
    }

    /// No history: a one-millisecond guess.
    pub fn new() -> (r: Self)
        ensures
            r.mean_spec() == 1_000_000,
            r.variance_spec() == 1_000_000,
            r.samples_spec() == 0,
            r.last_burst_spec() == 0,
            r.blocking_spec() == 0,
    {
        BurstPredictor { mean: 1_000_000, variance: 1_000_000, samples: 0, last_burst: 0, blocking_score: 0 }
    }

    /// Record a burst of `burst` ns (at least 1): the first sets the mean, later ones
    /// move it a quarter of the way (never below 1) and blend their distance from it
    /// into the spread.
    pub fn observe_run(&mut self, burst: u64)
        ensures
            ({
                let b = if burst > 1 { burst } else { 1 };
                &&& final(self).last_burst_spec() == b
                &&& final(self).samples_spec() == old(self).samples_spec().saturating_add(1)
                &&& final(self).blocking_spec() == old(self).blocking_spec()
                &&& old(self).samples_spec() == 0 ==> final(self).mean_spec() == b && final(self).variance_spec() == b / 2
                &&& old(self).samples_spec() != 0 ==> {
                    let m = old(self).mean_spec() + quarter_toward_zero(b - old(self).mean_spec());
                    let dev = if b >= old(self).mean_spec() { b - old(self).mean_spec() } else { old(self).mean_spec() - b };
                    &&& final(self).mean_spec() == (if m > 1 { m } else { 1 })
                    &&& final(self).variance_spec() == (triple_saturated(old(self).variance_spec()) / 4).saturating_add(
                        (dev / 4) as u64,
                    )
                }
            }),
    {
        let burst = if burst > 1 { burst } else { 1 };
        if self.samples == 0 {
            self.mean = burst;
            self.variance = burst / 2;
        } else {
            let dev: u64 = if burst >= self.mean { burst - self.mean } else { self.mean - burst };
            let m: u64 = if burst >= self.mean { self.mean + dev / 4 } else { self.mean - dev / 4 };
            self.mean = if m > 1 { m } else { 1 };
            let tripled: u64 = if self.variance > u64::MAX / 3 { u64::MAX } else { self.variance * 3 };
            self.variance = (tripled / 4).saturating_add(dev / 4);
        }
        self.last_burst = burst;
        self.samples = self.samples.saturating_add(1);
    }

    /// The task woke from blocking: more evidence that it blocks (at most 100).
    pub fn on_wakeup(&mut self)
        ensures
            final(self).blocking_spec() == if old(self).blocking_spec() + 1 > 100 {
                100
            } else {
                old(self).blocking_spec().saturating_add(1)
            },
            final(self).mean_spec() == old(self).mean_spec(),
            final(self).variance_spec() == old(self).variance_spec(),
            final(self).samples_spec() == old(self).samples_spec(),
            final(self).last_burst_spec() == old(self).last_burst_spec(),
    {
        let s = self.blocking_score.saturating_add(1);
        self.blocking_score = if s < 100 { s } else { 100 };
    }

    /// The task ran without blocking: less evidence that it blocks.
    pub fn mark_nonblocking(&mut self)
        ensures
            final(self).blocking_spec() == old(self).blocking_spec().saturating_sub(1),
            final(self).mean_spec() == old(self).mean_spec(),
            final(self).variance_spec() == old(self).variance_spec(),
            final(self).samples_spec() == old(self).samples_spec(),
            final(self).last_burst_spec() == old(self).last_burst_spec(),
    {
        self.blocking_score = self.blocking_score.saturating_sub(1);
    }

    /// The current prediction.
    pub fn predict(&self) -> (r: Prediction)
        ensures
            r == (Prediction {
                mean_ns: self.mean_spec(),
                variance_ns: self.variance_spec(),
                confidence: (if self.samples_spec() < 255 { self.samples_spec() } else { 255 }) as u8,
                class: burst_class(self.blocking_spec(), self.mean_spec()),
            }),
    {
        let class = if self.blocking_score > 8 {
            BurstClass::Blocking
        } else if self.mean < 500_000 {
            BurstClass::Tiny
        } else if self.mean < 2_000_000 {
            BurstClass::Short
        } else if self.mean < 10_000_000 {
            BurstClass::Medium
        } else {
            BurstClass::Long
        };
        Prediction {
            mean_ns: self.mean,
            variance_ns: self.variance,
            confidence: (if self.samples < 255 { self.samples } else { 255 }) as u8,
            class,
        }
    }

    /// The quantum's arithmetic fits in 64 bits.
    pub open spec fn quantum_fits(&self, base: u64, class: Class) -> bool {
        let q = burst_scaled(base as int, burst_class(self.blocking_spec(), self.mean_spec()));
        &&& base * 3 <= u64::MAX
        &&& base * 2 <= u64::MAX
        &&& q * 3 <= u64::MAX
        &&& q * 2 <= u64::MAX
    }

    /// Time slice for the task: `base` scaled by its burst class and its task class,
    /// plus 50 us per priority level (saturating).
    pub fn quantum(&self, base: u64, class: Class, p: Priority) -> (r: u64)
        requires
            self.quantum_fits(base, class),
        ensures
            r == (class_scaled(
                burst_scaled(base as int, burst_class(self.blocking_spec(), self.mean_spec())),
                class,
            ) as u64).saturating_add((p.0 * 50_000) as u64),
    {
        let x = self.predict();
        let mut q = base;
        q = match x.class {
            BurstClass::Tiny => q / 2,
            BurstClass::Short => q * 3 / 4,
            BurstClass::Long => q * 2,
            _ => q,
        };
        q = match class {
            Class::RealTime => q / 2,
            Class::Interactive => q * 3 / 4,
            Class::Background => q * 2,
            _ => q,
        };
        q.saturating_add((p.value() as u64) * 50_000)
    }
}


/// Each observation after the first moves the mean toward the burst, never past it.
pub proof fn law_observe_moves_toward_burst(mean: u64, burst: u64)
    requires
        mean >= 1,
    ensures
        ({
            let b = if burst > 1 { burst as int } else { 1int };
            let m = mean + quarter_toward_zero(b - mean);
            let m2 = if m > 1 { m } else { 1 };
            &&& b >= mean ==> mean <= m2 <= b
            &&& b < mean ==> b <= m2 <= mean
        }),
{
}

} // verus!
