//! Progress accounting for long-running passes.
//!
//! The bar holds the counters only; drawing them is its caller's concern.

use vstd::prelude::*;

verus! {

/// A progress counter with a fixed total and a message.
pub struct ProgressBar {
    /// The number of steps that make up the whole task.
    pub total: usize,
    /// The number of steps done so far; never beyond the total.
    pub current: usize,
    /// Display width, in characters, for a caller that draws the bar.
    pub width: usize,
    /// The message shown beside the bar.
    pub message: String,
}

impl ProgressBar {
    /// Creates a new progress counter at zero.
    pub fn new(total: usize, message: &str) -> (r: Self)
        ensures
            r.total == total,
            r.current == 0,
            r.width == 50,
            r.message@ == message@,
    {
        ProgressBar { total, current: 0, width: 50, message: message.to_string() }
    }

    /// Sets the progress, clamped to the total.
    pub fn set(&mut self, current: usize)
        ensures
            final(self).current == if current < old(self).total {
                current as int
            } else {
                old(self).total as int
            },
            final(self).total == old(self).total,
            final(self).width == old(self).width,
            final(self).message == old(self).message,
    {
        self.current = if current < self.total {
            current
        } else {
            self.total
        };
    }

    /// Advances the progress by one step, clamped to the total.
    pub fn inc(&mut self)
        requires
            old(self).current < usize::MAX,
        ensures
            final(self).current == if old(self).current + 1 < old(self).total {
                old(self).current + 1
            } else {
                old(self).total as int
            },
            final(self).total == old(self).total,
            final(self).width == old(self).width,
            final(self).message == old(self).message,
    {
        let next = self.current + 1;
        self.current = if next < self.total {
            next
        } else {
            self.total
        };
    }
}

} // verus!
