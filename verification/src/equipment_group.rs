use crate::strutil::str_eq;
use vstd::prelude::*;

verus! {

/// The functional role a piece of equipment plays.
#[derive(Clone, Copy, Debug, Hash, PartialEq, Eq, Structural)]
pub enum EquipmentGroup {
    MashTun,
    LauterTun,
    HotLiquorTank,
    Kettle,
    Fermentor,
    CO2Tank,
    Keg,
}

impl EquipmentGroup {
    /// Position in the declaration order of the groups.
    pub open spec fn rank_spec(self) -> int {
        match self {
            EquipmentGroup::MashTun => 0,
            EquipmentGroup::LauterTun => 1,
            EquipmentGroup::HotLiquorTank => 2,
            EquipmentGroup::Kettle => 3,
            EquipmentGroup::Fermentor => 4,
            EquipmentGroup::CO2Tank => 5,
            EquipmentGroup::Keg => 6,
        }
    }

    pub open spec fn spec_lookup(self) -> Seq<char> {
        match self {
            EquipmentGroup::MashTun => "Mash Tun"@,
            EquipmentGroup::LauterTun => "Lauter Tun"@,
            EquipmentGroup::HotLiquorTank => "Hot Liqoor Tank"@,
            EquipmentGroup::Kettle => "Kettle"@,
            EquipmentGroup::Fermentor => "Fermentor"@,
            EquipmentGroup::CO2Tank => "CO2 Tank"@,
            EquipmentGroup::Keg => "Keg"@,
        }
    }

    /// The display name of this group.
    pub fn lookup(&self) -> (r: &'static str)
        ensures
            r@ == self.spec_lookup(),
    {
        match self {
            EquipmentGroup::MashTun => "Mash Tun",
            EquipmentGroup::LauterTun => "Lauter Tun",
            EquipmentGroup::HotLiquorTank => "Hot Liqoor Tank",
            EquipmentGroup::Kettle => "Kettle",
            EquipmentGroup::Fermentor => "Fermentor",
            EquipmentGroup::CO2Tank => "CO2 Tank",
            EquipmentGroup::Keg => "Keg",
        }
    }

    /// Every equipment group, in declaration order.
    pub fn all() -> (r: Vec<EquipmentGroup>)
        ensures
            r@ =~= seq![
                EquipmentGroup::MashTun,
                EquipmentGroup::LauterTun,
                EquipmentGroup::HotLiquorTank,
                EquipmentGroup::Kettle,
                EquipmentGroup::Fermentor,
                EquipmentGroup::CO2Tank,
                EquipmentGroup::Keg,
            ],
    {
        let mut v: Vec<EquipmentGroup> = Vec::new();
        v.push(EquipmentGroup::MashTun);
        v.push(EquipmentGroup::LauterTun);
        v.push(EquipmentGroup::HotLiquorTank);
        v.push(EquipmentGroup::Kettle);
        v.push(EquipmentGroup::Fermentor);
        v.push(EquipmentGroup::CO2Tank);
        v.push(EquipmentGroup::Keg);
        v
    }

    pub open spec fn spec_parse(s: Seq<char>) -> Option<EquipmentGroup> {
        if s == "Mash Tun"@ || s == "mashtun"@ {
            Some(EquipmentGroup::MashTun)
        } else if s == "Lauter Tun"@ || s == "lautertun"@ {
            Some(EquipmentGroup::LauterTun)
        } else if s == "Hot Liquor Tank"@ || s == "hlt"@ {
            Some(EquipmentGroup::HotLiquorTank)
        } else if s == "Kettle"@ || s == "kettle"@ {
            Some(EquipmentGroup::Kettle)
        } else if s == "Fermentor"@ || s == "fermentor"@ {
            Some(EquipmentGroup::Fermentor)
        } else if s == "CO2 Tank"@ || s == "gastank"@ {
            Some(EquipmentGroup::CO2Tank)
        } else if s == "Keg"@ || s == "keg"@ {
            Some(EquipmentGroup::Keg)
        } else {
            None
        }
    }

    /// Reads a group token, in its human or its compact form.
    pub fn parse(s: &str) -> (r: Option<EquipmentGroup>)
        ensures
            r == Self::spec_parse(s@),
    {
        if str_eq(s, "Mash Tun") || str_eq(s, "mashtun") {
            Some(EquipmentGroup::MashTun)
        } else if str_eq(s, "Lauter Tun") || str_eq(s, "lautertun") {
            Some(EquipmentGroup::LauterTun)
        } else if str_eq(s, "Hot Liquor Tank") || str_eq(s, "hlt") {
            Some(EquipmentGroup::HotLiquorTank)
        } else if str_eq(s, "Kettle") || str_eq(s, "kettle") {
            Some(EquipmentGroup::Kettle)
        } else if str_eq(s, "Fermentor") || str_eq(s, "fermentor") {
            Some(EquipmentGroup::Fermentor)
        } else if str_eq(s, "CO2 Tank") || str_eq(s, "gastank") {
            Some(EquipmentGroup::CO2Tank)
        } else if str_eq(s, "Keg") || str_eq(s, "keg") {
            Some(EquipmentGroup::Keg)
        } else {
            None
        }
    }
}

impl core::str::FromStr for EquipmentGroup {
    type Err = ();

    fn from_str(s: &str) -> Result<EquipmentGroup, ()> {
        match EquipmentGroup::parse(s) {
            Some(g) => Ok(g),
            None => Err(()),
        }
    }
}

} // verus!
