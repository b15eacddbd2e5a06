//! When the sensors are read again.
//!
//! The caller owns the clock and the files. On every tick it asks the poller
//! whether a poll is due; where one is, it reads the files, hands them over
//! and gets the readings, and the poller notes the time.
//! Times are nanoseconds since a fixed origin, intervals whole seconds.

use crate::reading::{read_temp_data, readings_of, SensorFile, ThermalInfo};
use vstd::prelude::*;

verus! {

/// Nanoseconds in one second.
pub const NANOS_PER_SECOND: u128 = 1_000_000_000;

/// What the caller does on a tick.
#[derive(Clone, Copy, Debug, PartialEq, Eq, Structural)]
pub enum Tick {
    /// Nothing new: keep what is shown.
    Keep,
    /// Read the sensors again.
    Poll,
}

/// The state of the time gate.
#[derive(Clone, Copy, Debug, PartialEq, Eq, Structural)]
pub struct Poller {
    /// The refresh interval in seconds.
    pub interval: u64,
    /// When the sensors were last read.
    pub last_poll: u128,
}

/// What is done at time `now`, the last poll having been at `last_poll`:
/// a poll once `now` lies more than `interval` seconds after `last_poll`,
/// nothing at any other time. A clock that reads earlier than at the last
/// poll reads a time at which nothing is done.
pub open spec fn tick_of(last_poll: nat, interval: nat, now: nat) -> Tick {
    if now > last_poll + interval * NANOS_PER_SECOND {
        Tick::Poll
    } else {
        Tick::Keep
    }
}

impl Poller {
    /// The poller after a poll at time `now`.
    pub open spec fn polled_at(self, now: u128) -> Poller {
        Poller { interval: self.interval, last_poll: now }
    }

    /// What this poller asks for at time `now`.
    pub open spec fn at(self, now: u128) -> Tick {
        tick_of(self.last_poll as nat, self.interval as nat, now as nat)
    }

    /// A poller for the given interval, the first poll having been at `now`.
    pub fn new(interval: u64, now: u128) -> (p: Poller)
        ensures
            p == (Poller { interval, last_poll: now }),
    {
        Poller { interval, last_poll: now }
    }

    /// Whether a poll is due at time `now`.
    pub fn tick(&self, now: u128) -> (t: Tick)
        ensures
            t == self.at(now),
    {
        if now > self.last_poll && now - self.last_poll > (self.interval as u128)
            * NANOS_PER_SECOND {
            Tick::Poll
        } else {
            Tick::Keep
        }
    }

    /// Completes a poll that ended at time `now`: gives the readings of
    /// `files` and notes `now` as the time of the last poll.
    pub fn complete(&mut self, files: &Vec<SensorFile>, now: u128) -> (readings: Vec<ThermalInfo>)
        ensures
            *final(self) == old(self).polled_at(now),
            readings.deep_view() == readings_of(files.deep_view()),
    {
        self.last_poll = now;
        read_temp_data(files)
    }
}

/// After a poll at time `then`, a tick at time `now` asks for a new poll
/// exactly when `now` lies more than the interval after `then`, and for
/// nothing at every other time, the times before `then` among them.
pub proof fn lemma_gate(p: Poller, then: u128, now: u128)
    ensures
        now > then + p.interval * NANOS_PER_SECOND <==> p.polled_at(then).at(now) == Tick::Poll,
        now <= then + p.interval * NANOS_PER_SECOND <==> p.polled_at(then).at(now) == Tick::Keep,
        now <= then ==> p.polled_at(then).at(now) == Tick::Keep,
{
}

} // verus!
