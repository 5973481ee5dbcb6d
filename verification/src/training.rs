//! The bookkeeping of the training loop: how many ticks were played, what
//! the running episode has earned, and when the agent's parameters are due
//! to be saved. The loop itself, with its clock and its window, is the
//! caller's.

use vstd::prelude::*;

verus! {

/// The parameters are saved once in this many ticks.
pub const SAVE_INTERVAL: u64 = 1000;

/// The time between two ticks, in milliseconds.
pub const TICK_MILLIS: u64 = 100;

/// The counters that the training loop keeps from tick to tick.
#[derive(Clone, Copy, PartialEq, Eq, Structural, Debug)]
pub struct Progress {
    /// Ticks played since the loop began.
    pub steps: u64,
    /// The sum of the rewards of the running episode.
    pub episode_return: i64,
}

/// What the loop has to do after a tick.
#[derive(Clone, Copy, Debug)]
pub struct TickReport {
    /// The return of the episode that this tick ended, if it ended one.
    pub finished: Option<i64>,
    /// Whether the parameters are due to be saved.
    pub save_due: bool,
}

impl Progress {
    /// The counters before the first tick.
    pub fn new() -> (p: Progress)
        ensures
            p.steps == 0,
            p.episode_return == 0,
    {
        Progress { steps: 0, episode_return: 0 }
    }

    /// Whether [`Progress::record`] can count this tick without leaving the
    /// range of its counters.
    pub open spec fn can_record(self, reward: i32) -> bool {
        &&& self.steps < u64::MAX
        &&& i64::MIN <= self.episode_return + reward <= i64::MAX
    }

    /// Counts one tick.
    ///
    /// A tick that ends the episode reports the return earned before it and
    /// starts the next episode at zero; its own reward is not counted. Any
    /// other tick adds its reward to the running return. The parameters are
    /// due whenever the number of ticks reaches a multiple of the interval.
    pub fn record(&mut self, reward: i32, done: bool) -> (report: TickReport)
        requires
            old(self).can_record(reward),
        ensures
            final(self).steps == old(self).steps + 1,
            done ==> report.finished == Some(old(self).episode_return) && final(self).episode_return
                == 0,
            !done ==> report.finished.is_none() && final(self).episode_return == old(
                self,
            ).episode_return + reward,
            report.save_due == (final(self).steps % SAVE_INTERVAL == 0),
    {
        let finished = if done {
            let earned = self.episode_return;
            self.episode_return = 0;
            Some(earned)
        } else {
            self.episode_return = self.episode_return + reward as i64;
            None
        };
        self.steps = self.steps + 1;
        TickReport { finished, save_due: self.steps % SAVE_INTERVAL == 0 }
    }
}

} // verus!
