//! How many times something recurs: a fixed count or without end.

use vstd::prelude::*;

verus! {

/// A number of occurrences: finitely many, or unbounded.
#[derive(Clone, Copy, Debug, PartialEq, Eq, Structural)]
pub enum Recurrence {
    Times(u64),
    Forever,
}

impl Recurrence {
    /// Whether `count` occurrences exhaust this recurrence.
    pub open spec fn exhausted_by(self, count: u64) -> bool {
        match self {
            Recurrence::Times(k) => count >= k,
            Recurrence::Forever => false,
        }
    }

    /// Decides `exhausted_by` exactly.
    pub fn is_exhausted_by(&self, count: u64) -> (r: bool)
        ensures
            r == self.exhausted_by(count),
    {
        match self {
            Recurrence::Times(k) => count >= *k,
            Recurrence::Forever => false,
        }
    }
}

} // verus!
