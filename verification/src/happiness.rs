//! The happiness of the entity being taken care of.

use vstd::prelude::*;

verus! {

/// The happiness of an entity, as a percentage between 0 and 100.
#[derive(Clone, Copy, Debug)]
pub struct Happiness {
    /// The current value, in percentage points.
    value: u32,
}

impl Happiness {
    /// The current value, in percentage points.
    pub closed spec fn spec_value(self) -> u32 {
        self.value
    }

    /// Well-formedness: the value never leaves the 0 to 100 range.
    pub open spec fn wf(self) -> bool {
        self.spec_value() <= 100
    }

    /// Returns the current value, in percentage points.
    pub fn value(&self) -> (v: u32)
        ensures
            v == self.spec_value(),
    {
        self.value
    }

    /// Returns a happiness of 100%.
    pub fn happy() -> (h: Happiness)
        ensures
            h.spec_value() == 100,
            h.wf(),
    {
        Happiness { value: 100 }
    }

    /// Adds the given percentage points and clamps the result at 100.
    pub fn add(&mut self, value: u32)
        requires
            old(self).wf(),
        ensures
            final(self).wf(),
            final(self).spec_value() == (if old(self).spec_value() + value > 100 {
                100int
            } else {
                old(self).spec_value() + value
            }),
    {
        if value > 100 - self.value {
            self.value = 100;
        } else {
            self.value = self.value + value;
        }
    }

    /// Subtracts the given percentage points and clamps the result at 0.
    pub fn sub(&mut self, value: u32)
        requires
            old(self).wf(),
        ensures
            final(self).wf(),
            final(self).spec_value() == (if value > old(self).spec_value() {
                0int
            } else {
                old(self).spec_value() - value
            }),
    {
        if value > self.value {
            self.value = 0;
        } else {
            self.value = self.value - value;
        }
    }
}

} // verus!
