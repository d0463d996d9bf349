//! Pacing of the samples that a median weight is taken over: each sample is
//! accepted only once a least interval has elapsed since the previous one. The
//! caller owns the clock and the sleeping; this module decides.

use vstd::prelude::*;

verus! {

/// Time since `last`, on a clock that never runs backwards; a reading before
/// `last` counts as no time at all.
pub open spec fn elapsed(now_nanos: u64, last_nanos: u64) -> nat {
    if now_nanos >= last_nanos {
        (now_nanos - last_nanos) as nat
    } else {
        0
    }
}

/// What the caller does next while collecting samples.
#[derive(Debug, Clone, Copy, PartialEq, Eq, Structural)]
pub enum SampleStep {
    /// Sleep this long, then ask again.
    Wait { nanos: u64 },
    /// Take one sample now and hand it to `accept`.
    Sample,
    /// Every sample has been collected.
    Done,
}

/// The state of a paced collection: how many samples are wanted, the least
/// time between two accepted samples, when the last one was accepted (or the
/// collection began), and the samples so far.
pub struct SamplingModel<T> {
    pub target: nat,
    pub interval_nanos: u64,
    pub last_nanos: u64,
    pub samples: Seq<T>,
}

/// Collects a fixed number of samples, each accepted only once the interval
/// has elapsed since the previous acceptance (drift-free, not phase-locked).
pub struct MedianSampling<T> {
    target: usize,
    interval_nanos: u64,
    last_nanos: u64,
    samples: Vec<T>,
}

impl<T> View for MedianSampling<T> {
    type V = SamplingModel<T>;

    closed spec fn view(&self) -> SamplingModel<T> {
        SamplingModel {
            target: self.target as nat,
            interval_nanos: self.interval_nanos,
            last_nanos: self.last_nanos,
            samples: self.samples@,
        }
    }
}

/// The step owed to a collection in state `m` at time `now_nanos`.
pub open spec fn step_of<T>(m: SamplingModel<T>, now_nanos: u64) -> SampleStep {
    if m.samples.len() >= m.target {
        SampleStep::Done
    } else if elapsed(now_nanos, m.last_nanos) >= m.interval_nanos {
        SampleStep::Sample
    } else {
        SampleStep::Wait { nanos: (m.interval_nanos - elapsed(now_nanos, m.last_nanos)) as u64 }
    }
}

impl<T> MedianSampling<T> {
    /// Starts a collection of `samples` samples at time `now_nanos`. A median
    /// of nothing has no value: asked for no samples, there is no collection.
    pub fn new(samples: usize, interval_nanos: u64, now_nanos: u64) -> (r: Option<Self>)
        ensures
            r is None <==> samples == 0,
            r is Some ==> r->Some_0@.target == samples && r->Some_0@.interval_nanos == interval_nanos
                && r->Some_0@.last_nanos == now_nanos && r->Some_0@.samples == Seq::<T>::empty(),
    {
        if samples == 0 {
            None
        } else {
            Some(MedianSampling { target: samples, interval_nanos, last_nanos: now_nanos, samples: Vec::new() })
        }
    }

    pub fn is_done(&self) -> (r: bool)
        ensures
            r == (self@.samples.len() >= self@.target),
    {
        self.samples.len() >= self.target
    }

    /// What to do at time `now_nanos`: stop once every sample is in, sample
    /// once the interval has elapsed since the last acceptance, else wait for
    /// the rest of the interval.
    pub fn next_step(&self, now_nanos: u64) -> (r: SampleStep)
        ensures
            r == step_of(self@, now_nanos),
    {
        if self.samples.len() >= self.target {
            SampleStep::Done
        } else {
            let gone: u64 = if now_nanos >= self.last_nanos {
                now_nanos - self.last_nanos
            } else {
                0
            };
            if gone >= self.interval_nanos {
                SampleStep::Sample
            } else {
                SampleStep::Wait { nanos: self.interval_nanos - gone }
            }
        }
    }

    /// Records a sample taken at `now_nanos`; the next interval runs from there.
    pub fn accept(&mut self, sample: T, now_nanos: u64)
        requires
            old(self)@.samples.len() < old(self)@.target,
        ensures
            final(self)@.samples == old(self)@.samples.push(sample),
            final(self)@.last_nanos == now_nanos,
            final(self)@.target == old(self)@.target,
            final(self)@.interval_nanos == old(self)@.interval_nanos,
    {
        self.samples.push(sample);
        self.last_nanos = now_nanos;
    }

    /// The collected samples, in the order they were accepted.
    pub fn into_samples(self) -> (r: Vec<T>)
        ensures
            r@ == self@.samples,
    {
        self.samples
    }
}

} // verus!
