//! Decision core of the dedicated input processing worker.
//!
//! The worker itself is a host concern: a thread repeatedly pops a batch
//! from the bus, reports its length here, and performs the returned action
//! (dispatch the batch to the callback, spin briefly, or sleep). This module
//! holds the lifecycle flags and the adaptive-backoff decision, so that the
//! loop's behaviour is fixed by contract for every batch the host observes.

use vstd::prelude::*;

verus! {

/// How many events the worker asks the bus for per iteration.
pub const PROCESSOR_BATCH_SIZE: usize = 64;

/// Idle iterations after which the worker sleeps instead of spinning.
pub const IDLE_SPIN_THRESHOLD: u64 = 10;

/// How long the worker sleeps when idle, in microseconds.
pub const IDLE_SLEEP_MICROS: u64 = 100;

/// What the worker does after asking the bus for a batch.
#[derive(Clone, Copy, Debug, PartialEq, Eq, Structural)]
pub enum ProcessorAction {
    /// Hand every event of the batch to the dispatch callback, in order.
    Dispatch,
    /// The batch was empty and the worker was recently busy: spin briefly.
    Spin,
    /// The batch was empty and the worker has been idle: sleep.
    Sleep,
}

/// Lifecycle flags and backoff counters of the input processing worker.
pub struct InputProcessorState {
    running: bool,
    idle_iterations: u64,
    total_events_processed: u64,
}

impl InputProcessorState {
    /// True iff the worker is between `start` and `stop`.
    pub closed spec fn spec_running(&self) -> bool {
        self.running
    }

    /// Consecutive iterations without events, saturated just past the spin
    /// threshold (beyond it, only whether the threshold is exceeded
    /// matters).
    pub closed spec fn spec_idle_iterations(&self) -> nat {
        self.idle_iterations as nat
    }

    /// Events handed to the callback since the worker started, saturating.
    pub closed spec fn spec_total_events_processed(&self) -> nat {
        self.total_events_processed as nat
    }

    /// A stopped worker, before its first start.
    pub fn new() -> (r: Self)
        ensures
            !r.spec_running(),
            r.spec_idle_iterations() == 0,
            r.spec_total_events_processed() == 0,
    {
        InputProcessorState { running: false, idle_iterations: 0, total_events_processed: 0 }
    }

    /// Request the worker to run. Returns `true` iff it was stopped, in
    /// which case the counters restart; a second start changes nothing.
    pub fn start(&mut self) -> (started: bool)
        ensures
            final(self).spec_running(),
            started <==> !old(self).spec_running(),
            started ==> final(self).spec_idle_iterations() == 0
                && final(self).spec_total_events_processed() == 0,
            !started ==> *final(self) == *old(self),
    {
        if self.running {
            return false;
        }
        self.running = true;
        self.idle_iterations = 0;
        self.total_events_processed = 0;
        true
    }

    /// True iff the worker is between `start` and `stop`; the worker's loop
    /// polls this to decide whether to keep iterating.
    pub fn is_running(&self) -> (r: bool)
        ensures
            r == self.spec_running(),
    {
        self.running
    }

    /// Request the worker to exit its loop. Returns `true` iff it was
    /// running, in which case the host joins the thread.
    pub fn stop(&mut self) -> (was_running: bool)
        ensures
            !final(self).spec_running(),
            was_running <==> old(self).spec_running(),
            final(self).spec_idle_iterations() == old(self).spec_idle_iterations(),
            final(self).spec_total_events_processed() == old(
                self,
            ).spec_total_events_processed(),
    {
        let was_running = self.running;
        self.running = false;
        was_running
    }

    /// Account for one loop iteration that obtained a batch of
    /// `batch_len` events and decide what the worker does next: dispatch a
    /// non-empty batch; on an empty batch, spin until the idle streak
    /// exceeds the threshold, then sleep.
    pub fn on_batch(&mut self, batch_len: usize) -> (action: ProcessorAction)
        ensures
            final(self).spec_running() == old(self).spec_running(),
            batch_len > 0 ==> {
                &&& action == ProcessorAction::Dispatch
                &&& final(self).spec_idle_iterations() == 0
                &&& final(self).spec_total_events_processed() == vstd::math::min(
                    old(self).spec_total_events_processed() as int + batch_len as int,
                    u64::MAX as int,
                )
            },
            batch_len == 0 ==> {
                &&& final(self).spec_total_events_processed() == old(
                    self,
                ).spec_total_events_processed()
                &&& final(self).spec_idle_iterations() == (if old(
                    self,
                ).spec_idle_iterations() > IDLE_SPIN_THRESHOLD as nat {
                    old(self).spec_idle_iterations()
                } else {
                    old(self).spec_idle_iterations() + 1
                })
                &&& action == (if final(self).spec_idle_iterations() > IDLE_SPIN_THRESHOLD as nat {
                    ProcessorAction::Sleep
                } else {
                    ProcessorAction::Spin
                })
            },
    {
        if batch_len == 0 {
            if self.idle_iterations <= IDLE_SPIN_THRESHOLD {
                self.idle_iterations = self.idle_iterations + 1;
            }
            if self.idle_iterations > IDLE_SPIN_THRESHOLD {
                ProcessorAction::Sleep
            } else {
                ProcessorAction::Spin
            }
        } else {
            self.idle_iterations = 0;
            self.total_events_processed = self.total_events_processed.saturating_add(
                batch_len as u64,
            );
            ProcessorAction::Dispatch
        }
    }
}

} // verus!
