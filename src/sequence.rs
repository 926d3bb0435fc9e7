use vstd::prelude::*;

verus! {

/// Issues strictly increasing article identifiers, starting from 1.
pub struct SequenceGenerator {
    last: u32,
}

impl SequenceGenerator {
    /// The most recently issued identifier; 0 before the first one.
    pub closed spec fn last_issued(&self) -> u32 {
        self.last
    }

    pub fn new() -> (r: Self)
        ensures
            r.last_issued() == 0,
    {
        SequenceGenerator { last: 0 }
    }

    /// Resumes after a persisted high-water mark.
    pub fn starting_after(high_water: u32) -> (r: Self)
        ensures
            r.last_issued() == high_water,
    {
        SequenceGenerator { last: high_water }
    }

    /// The next identifier, one above the last issued; `None` once every
    /// `u32` identifier has been issued, leaving the generator unchanged.
    pub fn next(&mut self) -> (r: Option<u32>)
        ensures
            old(self).last_issued() < u32::MAX ==> r == Some((old(self).last_issued() + 1) as u32)
                && final(self).last_issued() == old(self).last_issued() + 1,
            old(self).last_issued() == u32::MAX ==> r is None && *final(self) == *old(self),
    {
        if self.last == u32::MAX {
            None
        } else {
            self.last = self.last + 1;
            Some(self.last)
        }
    }
}

} // verus!
