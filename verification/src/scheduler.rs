//! The background refresh scheduler's state machine: Running until the
//! shared stop signal is observed, one decision per fixed tick. The
//! worker thread, the sleeping and the reading of the signal live
//! outside; they hand each observed signal value to `on_tick` and carry
//! out what it decides.

use vstd::prelude::*;

verus! {

/// What one tick decides: whether this tick crosses a refresh boundary,
/// and whether the loop terminates now.
#[derive(Debug, Clone, Copy, PartialEq, Eq, Structural)]
pub struct TickOutcome {
    pub refresh: bool,
    pub exit: bool,
}

/// The scheduler's state: elapsed ticks, the refresh cadence and the
/// tick length, both in milliseconds.
#[derive(Debug, Clone, Copy)]
pub struct Scheduler {
    pub count: u64,
    pub refresh_frequency: u64,
    pub tick_ms: u64,
}

impl Scheduler {
    /// The state is usable: a refresh cadence and a tick length exist.
    pub open spec fn wf(&self) -> bool {
        self.refresh_frequency > 0 && self.tick_ms > 0
    }

    /// A scheduler at its start: Running, no tick elapsed.
    pub fn new(refresh_frequency: u64, tick_ms: u64) -> (r: Self)
        requires
            refresh_frequency > 0,
            tick_ms > 0,
        ensures
            r.count == 0,
            r.refresh_frequency == refresh_frequency,
            r.tick_ms == tick_ms,
            r.wf(),
    {
        Scheduler { count: 0, refresh_frequency, tick_ms }
    }

    /// One tick of the loop. A refresh is due when the elapsed wall
    /// time crosses a refresh-frequency boundary (never on the very
    /// first tick); the loop exits on the tick that observes the stop
    /// signal, so termination lags the signal by at most one tick.
    pub fn on_tick(&mut self, stopped: bool) -> (r: TickOutcome)
        requires
            old(self).wf(),
            old(self).count < u64::MAX,
        ensures
            r.refresh == (old(self).count != 0 && (old(self).count as int * old(
                self,
            ).tick_ms as int) % (old(self).refresh_frequency as int) == 0),
            r.exit == stopped,
            final(self).count == (if stopped {
                old(self).count as int
            } else {
                old(self).count + 1
            }),
            final(self).refresh_frequency == old(self).refresh_frequency,
            final(self).tick_ms == old(self).tick_ms,
            final(self).wf(),
    {
        let c = self.count as u128;
        let t = self.tick_ms as u128;
        proof {
            assert(c * t <= 0xFFFF_FFFF_FFFF_FFFFu128 * 0xFFFF_FFFF_FFFF_FFFFu128)
                by (nonlinear_arith)
                requires
                    c <= 0xFFFF_FFFF_FFFF_FFFFu128,
                    t <= 0xFFFF_FFFF_FFFF_FFFFu128,
            ;
        }
        let refresh = self.count != 0 && (c * t) % (self.refresh_frequency as u128) == 0;
        if stopped {
            TickOutcome { refresh, exit: true }
        } else {
            self.count = self.count + 1;
            TickOutcome { refresh, exit: false }
        }
    }
}

} // verus!
