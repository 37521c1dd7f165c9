use crate::equipment::Equipment;
use crate::equipment_group::EquipmentGroup;
use vstd::prelude::*;

verus! {

/// One scheduled activity: processing in a vessel, cleaning it, or the
/// transfer out of one vessel into the next.
#[derive(Clone, Debug, PartialEq, Eq)]
pub enum Action {
    Process(Equipment),
    Clean(Equipment),
    Transfer(Equipment, Equipment),
}

impl Action {
    /// The equipment this action occupies first: the processed, cleaned,
    /// or transferred-from vessel.
    pub open spec fn spec_equipment(self) -> Equipment {
        match self {
            Action::Process(e) => e,
            Action::Clean(e) => e,
            Action::Transfer(e, _) => e,
        }
    }

    /// Whether this action's primary equipment belongs to the group.
    pub open spec fn group_matches(self, g: EquipmentGroup) -> bool {
        self.spec_equipment().equipment_group == g
    }

    pub open spec fn spec_lookup(self) -> Seq<char> {
        match self {
            Action::Process(e) => "Process ("@ + e.name@ + ")"@,
            Action::Clean(e) => "Clean ("@ + e.name@ + ")"@,
            Action::Transfer(from, to) => "Transfer (from "@ + from.name@ + " to "@ + to.name@
                + ")"@,
        }
    }

    /// The display form of the action.
    pub fn lookup(&self) -> (r: String)
        ensures
            r@ == self.spec_lookup(),
    {
        match self {
            Action::Process(e) => String::from_str("Process (").concat(e.name.as_str()).concat(
                ")",
            ),
            Action::Clean(e) => String::from_str("Clean (").concat(e.name.as_str()).concat(")"),
            Action::Transfer(from, to) => String::from_str("Transfer (from ").concat(
                from.name.as_str(),
            ).concat(" to ").concat(to.name.as_str()).concat(")"),
        }
    }

    pub open spec fn spec_resources(self) -> Seq<Seq<char>> {
        match self {
            Action::Process(e) => seq![e.name@],
            Action::Clean(e) => seq!["Cleaner"@, e.name@],
            Action::Transfer(from, to) => seq!["Pumper"@, from.name@, to.name@],
        }
    }

    /// The resources the action ties up, by name; manual work is done by
    /// the cleaner or the pumper.
    pub fn resources(&self) -> (r: Vec<String>)
        ensures
            r@.len() == self.spec_resources().len(),
            forall|i: int| 0 <= i < r@.len() ==> (#[trigger] r@[i])@ == self.spec_resources()[i],
    {
        let mut v: Vec<String> = Vec::new();
        match self {
            Action::Process(e) => {
                v.push(e.name.clone());
            },
            Action::Clean(e) => {
                v.push(String::from_str("Cleaner"));
                v.push(e.name.clone());
            },
            Action::Transfer(from, to) => {
                v.push(String::from_str("Pumper"));
                v.push(from.name.clone());
                v.push(to.name.clone());
            },
        }
        v
    }
}

} // verus!
