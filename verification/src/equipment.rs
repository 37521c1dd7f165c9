use crate::capacity::Capacity;
use crate::equipment_group::EquipmentGroup;
use crate::volume::{Volume, MAX_AMOUNT};
use vstd::prelude::*;

verus! {

/// One physical piece of equipment: a unique name, the capacity bucket it
/// belongs to, and its functional group.
#[derive(Debug, PartialEq, Eq)]
pub struct Equipment {
    pub name: String,
    pub capacity: Capacity,
    pub equipment_group: EquipmentGroup,
}

impl Clone for Equipment {
    /// A clone carries the same name, capacity and group.
    fn clone(&self) -> (r: Self)
        ensures
            r == *self,
    {
        Equipment {
            name: self.name.clone(),
            capacity: self.capacity,
            equipment_group: self.equipment_group,
        }
    }
}

impl Equipment {
    /// Builds a piece of equipment from its three attributes.
    pub fn new(name: String, capacity: Capacity, equipment_group: EquipmentGroup) -> (r:
        Equipment)
        ensures
            r.name@ == name@,
            r.capacity == capacity,
            r.equipment_group == equipment_group,
    {
        Equipment { name, capacity, equipment_group }
    }

    /// Whether this vessel's capacity holds at least the given volume.
    pub fn can_hold(&self, volume: &Volume) -> (r: bool)
        requires
            !(self.capacity is UNKNOWN),
            volume.is_liquid(),
            volume.amount_spec() <= MAX_AMOUNT,
        ensures
            r == (self.capacity.spec_volume().microliters_spec()
                >= volume.microliters_spec()),
    {
        let cap = self.capacity.volume();
        cap.ge(volume)
    }
}

} // verus!
