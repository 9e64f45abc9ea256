//! The fixed-timestep driver: wall-clock time feeds an accumulator, and the
//! accumulator is drained in whole fixed timesteps. The caller runs one
//! physics step per drained timestep; fractional time is carried over, so
//! physics advances in fixed, deterministic increments whatever the frame
//! rate does.

use crate::error::SimError;
use vstd::prelude::*;

verus! {

/// Clock state of the fixed-timestep simulation driver. Times are plain
/// ticks of any resolution the caller likes; only differences matter.
#[derive(Clone, Copy, Debug, PartialEq, Eq, Structural)]
pub struct DiscreteTimeStepSim {
    /// The clock reading of the previous driver call.
    pub previous_time: u64,
    /// The fixed timestep, in ticks; always positive.
    pub time_interval: u64,
    /// Wall-clock time not yet simulated, in ticks.
    pub accumulator: u64,
}

/// The driver's invariant between calls.
pub open spec fn sim_wf(s: DiscreteTimeStepSim) -> bool {
    s.time_interval > 0
}

impl DiscreteTimeStepSim {
    /// Build a driver. A zero timestep would make the catch-up loop
    /// meaningless and is rejected outright.
    pub fn new(previous_time: u64, time_interval: u64, accumulator: u64) -> (r: Result<
        Self,
        SimError,
    >)
        ensures
            (r is Ok) == (time_interval > 0),
            r matches Ok(s) ==> s == (DiscreteTimeStepSim { previous_time, time_interval, accumulator })
                && sim_wf(s),
            r matches Err(e) ==> e is InvalidConfiguration,
    {
        if time_interval == 0 {
            return Err(SimError::InvalidConfiguration);
        }
        Ok(DiscreteTimeStepSim { previous_time, time_interval, accumulator })
    }

    /// Drain the accumulator: add the elapsed wall-clock time, and hand back
    /// how many whole fixed timesteps the caller must now simulate, at most
    /// `max_steps` (the spiral-of-death guard; time beyond the cap is
    /// dropped, not owed). Afterwards the accumulator always holds less than
    /// one timestep.
    pub fn run_sim(&mut self, now: u64, max_steps: u64) -> (steps: u64)
        requires
            sim_wf(*old(self)),
            old(self).previous_time <= now,
            old(self).accumulator + (now - old(self).previous_time) <= u64::MAX,
        ensures
            sim_wf(*final(self)),
            final(self).time_interval == old(self).time_interval,
            final(self).previous_time == now,
            steps == (if (old(self).accumulator + now - old(self).previous_time) / (
            old(self).time_interval as int) <= max_steps {
                (old(self).accumulator + now - old(self).previous_time) / (
                old(self).time_interval as int)
            } else {
                max_steps as int
            }),
            final(self).accumulator == (old(self).accumulator + now - old(self).previous_time) % (
            old(self).time_interval as int),
            0 <= final(self).accumulator < final(self).time_interval,
    {
        let elapsed: u64 = now - self.previous_time;
        self.previous_time = now;
        let pending: u64 = self.accumulator + elapsed;
        let steps: u64 = pending / self.time_interval;
        self.accumulator = pending % self.time_interval;
        if steps > max_steps {
            max_steps
        } else {
            steps
        }
    }
}

} // verus!
