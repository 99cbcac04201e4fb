//! Triggers: entities the player can collide with to set off an in-game
//! effect, a limited number of times or without limit.

use vstd::prelude::*;

use crate::recurrence::Recurrence;

verus! {

/// Entity that the player can collide with to trigger an in-game effect.
#[derive(Clone, Copy, Debug)]
pub struct Trigger {
    number_of_uses: Recurrence,
}

impl Trigger {
    /// How many uses remain.
    pub closed spec fn uses_left(self) -> Recurrence {
        self.number_of_uses
    }

    pub fn new(number_of_uses: Recurrence) -> (r: Trigger)
        ensures
            r.uses_left() == number_of_uses,
    {
        Trigger { number_of_uses }
    }

    /// Fires the trigger: reports whether the effect goes off, and spends one
    /// use when the count is limited. An exhausted trigger never fires.
    pub fn try_use(&mut self) -> (fired: bool)
        ensures
            fired == (old(self).uses_left() != Recurrence::Times(0)),
            final(self).uses_left() == match old(self).uses_left() {
                Recurrence::Times(k) => if k > 0 {
                    Recurrence::Times((k - 1) as u64)
                } else {
                    Recurrence::Times(0)
                },
                Recurrence::Forever => Recurrence::Forever,
            },
    {
        match self.number_of_uses {
            Recurrence::Times(k) => {
                if k > 0 {
                    self.number_of_uses = Recurrence::Times(k - 1);
                    true
                } else {
                    false
                }
            },
            Recurrence::Forever => true,
        }
    }
}

} // verus!
