use crate::beer::Beer;
use crate::capacity::Capacity;
use crate::equipment::Equipment;
use crate::equipment_group::EquipmentGroup;
use crate::error::PlanError;
use crate::strutil::str_eq;
use vstd::prelude::*;

verus! {

/// Whether a piece of equipment serves the given capacity and group.
pub open spec fn suits(e: Equipment, c: Capacity, g: EquipmentGroup) -> bool {
    e.capacity == c && e.equipment_group == g
}

/// The factory: its name and the registry of equipment and beers it owns.
#[derive(Clone, Debug, PartialEq, Eq)]
pub struct Factory {
    pub name: String,
    pub equipments: Vec<Equipment>,
    pub beers: Vec<Beer>,
}

impl Factory {
    /// Some equipment already carries this name.
    pub open spec fn has_equipment_name(self, n: Seq<char>) -> bool {
        exists|j: int|
            0 <= j < self.equipments@.len() && (#[trigger] self.equipments@[j]).name@ == n
    }

    /// Some beer already carries this name.
    pub open spec fn has_beer_name(self, n: Seq<char>) -> bool {
        exists|j: int| 0 <= j < self.beers@.len() && (#[trigger] self.beers@[j]).name@ == n
    }

    /// Well-formedness: names are unique per registry, and every beer is
    /// well formed.
    pub open spec fn wf(self) -> bool {
        &&& forall|i: int, j: int|
            0 <= i < j < self.equipments@.len() ==> (#[trigger] self.equipments@[i]).name@ != (
            #[trigger] self.equipments@[j]).name@
        &&& forall|i: int, j: int|
            0 <= i < j < self.beers@.len() ==> (#[trigger] self.beers@[i]).name@ != (
            #[trigger] self.beers@[j]).name@
        &&& forall|i: int| 0 <= i < self.beers@.len() ==> (#[trigger] self.beers@[i]).wf()
    }

    /// An empty factory with the given name.
    pub fn new(name: &str) -> (r: Factory)
        ensures
            r.name@ == name@,
            r.equipments@.len() == 0,
            r.beers@.len() == 0,
            r.wf(),
    {
        Factory { name: name.to_owned(), equipments: Vec::new(), beers: Vec::new() }
    }

    /// Registers a piece of equipment; a duplicate name is refused and
    /// leaves the factory unchanged.
    pub fn register_equipment(&mut self, e: Equipment) -> (r: Result<(), PlanError>)
        requires
            old(self).wf(),
        ensures
            final(self).wf(),
            r is Ok <==> !old(self).has_equipment_name(e.name@),
            r is Ok ==> final(self).equipments@ =~= old(self).equipments@.push(e),
            r is Ok ==> final(self).beers@ == old(self).beers@ && final(self).name@ == old(
                self,
            ).name@,
            r is Err ==> *final(self) == *old(self) && r->Err_0 is ConfigParse,
    {
        let n = self.equipments.len();
        let mut i: usize = 0;
        while i < n
            invariant
                old(self).wf(),
                *self == *old(self),
                n == self.equipments@.len(),
                0 <= i <= n,
                forall|j: int| 0 <= j < i ==> (#[trigger] self.equipments@[j]).name@ != e.name@,
            decreases n - i,
        {
            if str_eq(self.equipments[i].name.as_str(), e.name.as_str()) {
                return Err(PlanError::ConfigParse);
            }
            i = i + 1;
        }
        self.equipments.push(e);
        Ok(())
    }

    /// Registers a beer; a duplicate name or an ill-formed beer is refused
    /// and leaves the factory unchanged.
    pub fn register_beer(&mut self, b: Beer) -> (r: Result<(), PlanError>)
        requires
            old(self).wf(),
            b.wf(),
        ensures
            final(self).wf(),
            r is Ok <==> !old(self).has_beer_name(b.name@),
            r is Ok ==> final(self).beers@ =~= old(self).beers@.push(b),
            r is Ok ==> final(self).equipments@ == old(self).equipments@ && final(self).name@
                == old(self).name@,
            r is Err ==> *final(self) == *old(self) && r->Err_0 is ConfigParse,
    {
        let n = self.beers.len();
        let mut i: usize = 0;
        while i < n
            invariant
                old(self).wf(),
                *self == *old(self),
                n == self.beers@.len(),
                0 <= i <= n,
                forall|j: int| 0 <= j < i ==> (#[trigger] self.beers@[j]).name@ != b.name@,
            decreases n - i,
        {
            if str_eq(self.beers[i].name.as_str(), b.name.as_str()) {
                return Err(PlanError::ConfigParse);
            }
            i = i + 1;
        }
        self.beers.push(b);
        Ok(())
    }

    /// The index of the beer with this name, if registered.
    pub fn find_beer(&self, name: &str) -> (r: Option<usize>)
        ensures
            match r {
                Some(i) => i < self.beers@.len() && self.beers@[i as int].name@ == name@,
                None => !self.has_beer_name(name@),
            },
    {
        let n = self.beers.len();
        let mut i: usize = 0;
        while i < n
            invariant
                n == self.beers@.len(),
                0 <= i <= n,
                forall|j: int| 0 <= j < i ==> (#[trigger] self.beers@[j]).name@ != name@,
            decreases n - i,
        {
            if str_eq(self.beers[i].name.as_str(), name) {
                return Some(i);
            }
            i = i + 1;
        }
        None
    }

    /// Indices of the equipment that serves the given capacity and group,
    /// in registry order.
    pub fn suited_indices(&self, system: &Capacity, equipment_group: &EquipmentGroup) -> (r: Vec<
        usize,
    >)
        ensures
            forall|j: int|
                0 <= j < r@.len() ==> (#[trigger] r@[j]) < self.equipments@.len() && suits(
                    self.equipments@[r@[j] as int],
                    *system,
                    *equipment_group,
                ),
            forall|j1: int, j2: int| 0 <= j1 < j2 < r@.len() ==> r@[j1] < r@[j2],
            forall|k: int|
                0 <= k < self.equipments@.len() && suits(
                    #[trigger] self.equipments@[k],
                    *system,
                    *equipment_group,
                ) ==> r@.contains(k as usize),
    {
        let n = self.equipments.len();
        let mut r: Vec<usize> = Vec::new();
        let mut i: usize = 0;
        while i < n
            invariant
                n == self.equipments@.len(),
                0 <= i <= n,
                forall|j: int|
                    0 <= j < r@.len() ==> (#[trigger] r@[j]) < i && suits(
                        self.equipments@[r@[j] as int],
                        *system,
                        *equipment_group,
                    ),
                forall|j1: int, j2: int| 0 <= j1 < j2 < r@.len() ==> r@[j1] < r@[j2],
                forall|k: int|
                    0 <= k < i && suits(#[trigger] self.equipments@[k], *system, *equipment_group)
                        ==> r@.contains(k as usize),
            decreases n - i,
        {
            let ghost r_before = r@;
            let e = &self.equipments[i];
            if e.capacity == *system && e.equipment_group == *equipment_group {
                r.push(i);
            }
            proof {
                assert forall|k: int|
                    0 <= k < i + 1 && suits(
                        #[trigger] self.equipments@[k],
                        *system,
                        *equipment_group,
                    ) implies r@.contains(k as usize) by {
                    if k < i {
                        assert(r_before.contains(k as usize));
                        let j = choose|j: int|
                            0 <= j < r_before.len() && r_before[j] == k as usize;
                        assert(r@[j] == k as usize);
                    } else {
                        assert(r@[r@.len() - 1] == i as usize);
                    }
                }
            }
            i = i + 1;
        }
        r
    }
}

} // verus!
