use crate::capacity::Capacity;
use crate::volume::{Volume, MAX_AMOUNT};
use vstd::prelude::*;

verus! {

/// One batch the sizer asks the scheduler to place: its id, the beer it
/// brews (by name), the system capacity it runs on, and the volume it is
/// to produce.
#[derive(Clone, Debug, PartialEq, Eq)]
pub struct BatchNeed {
    pub id: usize,
    pub beer_name: String,
    pub system: Capacity,
    pub volume: Volume,
}

impl BatchNeed {
    /// A batch is acceptable when its system is known and its volume is a
    /// liquid amount in range.
    pub open spec fn wf(self) -> bool {
        &&& !(self.system is UNKNOWN)
        &&& self.volume.is_liquid()
        &&& self.volume.amount_spec() <= MAX_AMOUNT
    }

    /// Builds a batch record.
    pub fn new(id: usize, beer_name: String, system: Capacity, volume: Volume) -> (r: BatchNeed)
        ensures
            r.id == id,
            r.beer_name@ == beer_name@,
            r.system == system,
            r.volume == volume,
    {
        BatchNeed { id, beer_name, system, volume }
    }
}

} // verus!
