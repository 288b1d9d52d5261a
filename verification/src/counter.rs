//! Run statistics: all-time byte and event totals, reset at the start of
//! each run. The wall-clock side of the throughput display — elapsed time
//! and the derived rate — lives with the dashboard, which owns the clock.
use vstd::prelude::*;

verus! {

/// All-time totals since the counter was created or last reset.
#[derive(Debug)]
pub struct Counter {
    /// All-time total bytes.
    pub total_size: usize,
    /// All-time number of events.
    pub n_events: usize,
}

impl Default for Counter {
    fn default() -> (c: Counter)
        ensures
            c.total_size == 0,
            c.n_events == 0,
    {
        Counter { total_size: 0, n_events: 0 }
    }
}

impl Counter {
    /// A fresh counter with both totals at zero.
    pub fn new() -> (c: Counter)
        ensures
            c.total_size == 0,
            c.n_events == 0,
    {
        Default::default()
    }

    /// A copy of another counter's totals.
    pub fn from(other: &Counter) -> (c: Counter)
        ensures
            c.total_size == other.total_size,
            c.n_events == other.n_events,
    {
        Counter { total_size: other.total_size, n_events: other.n_events }
    }

    /// Records one event of `size` bytes.
    pub fn increment(&mut self, size: usize)
        requires
            old(self).total_size + size <= usize::MAX,
            old(self).n_events < usize::MAX,
        ensures
            final(self).total_size == old(self).total_size + size,
            final(self).n_events == old(self).n_events + 1,
    {
        self.total_size = self.total_size + size;
        self.n_events = self.n_events + 1;
    }

    /// Resets both totals to zero.
    pub fn reset(&mut self)
        ensures
            final(self).total_size == 0,
            final(self).n_events == 0,
    {
        self.total_size = 0;
        self.n_events = 0;
    }
}

} // verus!
