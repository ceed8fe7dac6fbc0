//! The tick scheduler: a repeating interval timer that gates every
//! audio-reactive update, whatever the pace of the loop around it.

use vstd::prelude::*;

verus! {

/// The period a timer starts with, in nanoseconds.
pub const DEFAULT_PERIOD: u64 = 32_000_000;

/// A repeating timer. Each pass of the loop hands it the time gone by; it
/// fires on the pass in which the time gathered reaches its period, and
/// carries what is over into the next period.
#[derive(Debug, Clone, Copy, PartialEq, Eq, Structural)]
pub struct AudioVisualizerUpdateTimer {
    period: u64,
    elapsed: u64,
    finished: bool,
}

/// The time left in the running period once `gathered` nanoseconds have
/// come together: what is over after whole periods, nothing for a period
/// of zero.
pub open spec fn carried(gathered: nat, period: nat) -> nat {
    if period == 0 {
        0
    } else {
        gathered % period
    }
}

impl AudioVisualizerUpdateTimer {
    /// The length of one period, in nanoseconds.
    pub closed spec fn period(&self) -> nat {
        self.period as nat
    }

    /// The time gathered in the running period, in nanoseconds.
    pub closed spec fn elapsed(&self) -> nat {
        self.elapsed as nat
    }

    /// Whether the last pass completed a period.
    pub closed spec fn fired(&self) -> bool {
        self.finished
    }

    /// The time gathered stays below the period.
    pub open spec fn well_formed(&self) -> bool {
        self.elapsed() == carried(self.elapsed(), self.period())
    }

    /// A timer of the given period that has gathered no time yet.
    pub fn new(period_nanos: u64) -> (timer: AudioVisualizerUpdateTimer)
        ensures
            timer.period() == period_nanos,
            timer.elapsed() == 0,
            !timer.fired(),
            timer.well_formed(),
    {
        proof {
            if period_nanos > 0 {
                vstd::arithmetic::div_mod::lemma_small_mod(0, period_nanos as nat);
            }
        }
        AudioVisualizerUpdateTimer { period: period_nanos, elapsed: 0, finished: false }
    }

    /// One pass of the loop, `delta_nanos` after the pass before.
    pub fn tick(&mut self, delta_nanos: u64)
        ensures
            final(self).period() == old(self).period(),
            final(self).fired() <==> old(self).elapsed() + delta_nanos >= old(self).period(),
            final(self).fired() ==> final(self).elapsed() == carried(
                old(self).elapsed() + delta_nanos as nat,
                old(self).period(),
            ),
            !final(self).fired() ==> final(self).elapsed() == old(self).elapsed() + delta_nanos,
            final(self).well_formed(),
    {
        let gathered: u128 = self.elapsed as u128 + delta_nanos as u128;
        if gathered >= self.period as u128 {
            self.finished = true;
            if self.period == 0 {
                self.elapsed = 0;
            } else {
                proof {
                    vstd::arithmetic::div_mod::lemma_mod_pos_bound(
                        gathered as int,
                        self.period as int,
                    );
                    vstd::arithmetic::div_mod::lemma_small_mod(
                        (gathered % (self.period as u128)) as nat,
                        self.period as nat,
                    );
                }
                self.elapsed = (gathered % self.period as u128) as u64;
            }
        } else {
            proof {
                vstd::arithmetic::div_mod::lemma_small_mod(gathered as nat, self.period as nat);
            }
            self.finished = false;
            self.elapsed = gathered as u64;
        }
    }

    /// Whether the last pass completed a period.
    pub fn just_finished(&self) -> (fired: bool)
        ensures
            fired == self.fired(),
    {
        self.finished
    }

    /// The length of one period, in nanoseconds.
    pub fn period_nanos(&self) -> (period: u64)
        ensures
            period == self.period(),
    {
        self.period
    }

    /// The time gathered in the running period, in nanoseconds.
    pub fn elapsed_nanos(&self) -> (elapsed: u64)
        ensures
            elapsed == self.elapsed(),
    {
        self.elapsed
    }
}

impl Default for AudioVisualizerUpdateTimer {
    fn default() -> (timer: AudioVisualizerUpdateTimer)
        ensures
            timer.period() == DEFAULT_PERIOD,
            timer.elapsed() == 0,
            !timer.fired(),
            timer.well_formed(),
    {
        AudioVisualizerUpdateTimer::new(DEFAULT_PERIOD)
    }
}

} // verus!
