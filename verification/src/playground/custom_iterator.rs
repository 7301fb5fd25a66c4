//! A counter that yields the numbers from one up to a maximum.
use vstd::prelude::*;

verus! {

/// Counts from one up to `max`; `count` is the last number handed out.
pub struct Counter {
    pub count: usize,
    pub max: usize,
}

impl Counter {
    /// A counter that has handed out nothing yet.
    pub fn new(max: usize) -> (r: Self)
        ensures
            r.count == 0,
            r.max == max,
    {
        Counter { count: 0, max }
    }

    /// The next number, one more than the last, or `None` once `max` was reached.
    pub fn next(&mut self) -> (r: Option<usize>)
        ensures
            final(self).max == old(self).max,
            old(self).count < old(self).max ==> r == Some((old(self).count + 1) as usize)
                && final(self).count == old(self).count + 1,
            old(self).count >= old(self).max ==> r is None && final(self).count == old(self).count,
    {
        if self.count < self.max {
            self.count = self.count + 1;
            Some(self.count)
        } else {
            None
        }
    }
}

} // verus!
