use vstd::prelude::*;

verus! {

/// Bookkeeping a concurrent driver keeps between iterations: the count of
/// dispatched-but-uncollected background tasks and the shutdown flag.
///
/// The count equals the number of results still owed on the completion
/// channel; it is raised exactly once per dispatch and lowered exactly once
/// per collected result. The flag starts false and is set, at most once,
/// the moment the driver commits to returning a failure; no operation ever
/// clears it again, so a background worker that checks [`LoopControl::may_deliver`]
/// right before sending can never make a late result visible after the
/// driver has already decided the run's outcome.
pub struct LoopControl {
    in_flight: usize,
    shutdown: bool,
}

impl LoopControl {
    /// Number of dispatched background tasks not yet collected.
    pub closed spec fn in_flight_count(self) -> nat {
        self.in_flight as nat
    }

    /// Whether the driver has committed to returning a failure.
    pub closed spec fn is_shutdown(self) -> bool {
        self.shutdown
    }

    /// Fresh bookkeeping for a run: nothing in flight, no failure decided.
    pub fn new() -> (control: Self)
        ensures
            control.in_flight_count() == 0,
            !control.is_shutdown(),
    {
        LoopControl { in_flight: 0, shutdown: false }
    }

    /// Number of results still owed on the completion channel.
    pub fn in_flight_len(&self) -> (n: usize)
        ensures
            n == self.in_flight_count(),
    {
        self.in_flight
    }

    /// Record that one background task was handed to the executor.
    pub fn note_dispatch(&mut self)
        requires
            old(self).in_flight_count() < usize::MAX,
        ensures
            final (self).in_flight_count() == old(self).in_flight_count() + 1,
            final (self).is_shutdown() == old(self).is_shutdown(),
    {
        self.in_flight = self.in_flight + 1;
    }

    /// Record that one background result was received.
    pub fn note_collect(&mut self)
        requires
            old(self).in_flight_count() > 0,
        ensures
            final (self).in_flight_count() == old(self).in_flight_count() - 1,
            final (self).is_shutdown() == old(self).is_shutdown(),
    {
        self.in_flight = self.in_flight - 1;
    }

    /// Commit to returning a failure: from here on no background result may
    /// be delivered. The flag never goes back to false.
    pub fn mark_shutdown(&mut self)
        ensures
            final (self).is_shutdown(),
            final (self).in_flight_count() == old(self).in_flight_count(),
    {
        self.shutdown = true;
    }

    /// The run is complete: nothing queued and nothing in flight.
    pub fn run_finished(&self, queue_len: usize) -> (r: bool)
        ensures
            r == (queue_len == 0 && self.in_flight_count() == 0),
    {
        queue_len == 0 && self.in_flight == 0
    }

    /// The driver has nothing to pop but results are still owed, so it must
    /// block on the completion channel rather than spin.
    pub fn must_wait(&self, queue_len: usize) -> (r: bool)
        ensures
            r == (queue_len == 0 && self.in_flight_count() != 0),
    {
        queue_len == 0 && self.in_flight != 0
    }

    /// What a background worker checks immediately before sending its
    /// result: deliver only while no failure has been decided.
    pub fn may_deliver(&self) -> (r: bool)
        ensures
            r == !self.is_shutdown(),
    {
        !self.shutdown
    }
}

} // verus!
