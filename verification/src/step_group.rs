use crate::capacity::Capacity;
use crate::equipment_group::EquipmentGroup;
use crate::strutil::str_eq;
use vstd::prelude::*;

verus! {

/// One step (phase) of the brew process, in brewing order.
#[derive(Clone, Copy, Debug, Hash, PartialEq, Eq, Structural)]
pub enum StepGroup {
    Brewing,
    PrimaryFermentation,
    DiacetylRest,
    SecondaryFermentation,
    Aging,
    Carbonation,
}

impl StepGroup {
    /// Position in the fixed brewing order.
    pub open spec fn rank_spec(self) -> int {
        match self {
            StepGroup::Brewing => 0,
            StepGroup::PrimaryFermentation => 1,
            StepGroup::DiacetylRest => 2,
            StepGroup::SecondaryFermentation => 3,
            StepGroup::Aging => 4,
            StepGroup::Carbonation => 5,
        }
    }

    /// Position in the fixed brewing order.
    pub fn rank(&self) -> (r: u8)
        ensures
            r == self.rank_spec(),
    {
        match self {
            StepGroup::Brewing => 0,
            StepGroup::PrimaryFermentation => 1,
            StepGroup::DiacetylRest => 2,
            StepGroup::SecondaryFermentation => 3,
            StepGroup::Aging => 4,
            StepGroup::Carbonation => 5,
        }
    }

    pub open spec fn spec_lookup(self) -> Seq<char> {
        match self {
            StepGroup::Aging => "Aging"@,
            StepGroup::Brewing => "Brewing"@,
            StepGroup::Carbonation => "Carbonation"@,
            StepGroup::DiacetylRest => "Diacetyl Rest"@,
            StepGroup::PrimaryFermentation => "Primary Fermentation"@,
            StepGroup::SecondaryFermentation => "Secondary Fermentation"@,
        }
    }

    /// The display name of this step.
    pub fn lookup(&self) -> (r: &'static str)
        ensures
            r@ == self.spec_lookup(),
    {
        match self {
            StepGroup::Aging => "Aging",
            StepGroup::Brewing => "Brewing",
            StepGroup::Carbonation => "Carbonation",
            StepGroup::DiacetylRest => "Diacetyl Rest",
            StepGroup::PrimaryFermentation => "Primary Fermentation",
            StepGroup::SecondaryFermentation => "Secondary Fermentation",
        }
    }

    /// Every step, in brewing order.
    pub fn all() -> (r: Vec<StepGroup>)
        ensures
            r@ =~= seq![
                StepGroup::Brewing,
                StepGroup::PrimaryFermentation,
                StepGroup::DiacetylRest,
                StepGroup::SecondaryFermentation,
                StepGroup::Aging,
                StepGroup::Carbonation,
            ],
    {
        let mut v: Vec<StepGroup> = Vec::new();
        v.push(StepGroup::Brewing);
        v.push(StepGroup::PrimaryFermentation);
        v.push(StepGroup::DiacetylRest);
        v.push(StepGroup::SecondaryFermentation);
        v.push(StepGroup::Aging);
        v.push(StepGroup::Carbonation);
        v
    }

    pub open spec fn spec_equipment_group(self) -> EquipmentGroup {
        match self {
            StepGroup::Aging => EquipmentGroup::Keg,
            StepGroup::Brewing => EquipmentGroup::MashTun,
            StepGroup::Carbonation => EquipmentGroup::CO2Tank,
            StepGroup::DiacetylRest => EquipmentGroup::Fermentor,
            StepGroup::PrimaryFermentation => EquipmentGroup::Fermentor,
            StepGroup::SecondaryFermentation => EquipmentGroup::Fermentor,
        }
    }

    /// The group of equipment this step occupies.
    pub fn equipment_group(&self) -> (r: EquipmentGroup)
        ensures
            r == self.spec_equipment_group(),
    {
        match self {
            StepGroup::Aging => EquipmentGroup::Keg,
            StepGroup::Brewing => EquipmentGroup::MashTun,
            StepGroup::Carbonation => EquipmentGroup::CO2Tank,
            StepGroup::DiacetylRest => EquipmentGroup::Fermentor,
            StepGroup::PrimaryFermentation => EquipmentGroup::Fermentor,
            StepGroup::SecondaryFermentation => EquipmentGroup::Fermentor,
        }
    }

    /// Scale factor that a capacity bucket applies to post-process work.
    pub open spec fn spec_ppt_factor(c: Capacity) -> int {
        match c {
            Capacity::G5 => 1,
            Capacity::G10 => 1,
            Capacity::G14 => 1,
            Capacity::G15 => 1,
            Capacity::BBL5 => 2,
            Capacity::BBL7 => 5,
            Capacity::BBL10 => 10,
            Capacity::BBL15 => 20,
            Capacity::UNKNOWN => 1_000_000,
        }
    }

    /// Base minutes of transfer or clean work after this step.
    pub open spec fn spec_ppt_minutes(self) -> int {
        match self {
            StepGroup::Aging => 2,
            StepGroup::Brewing => 5,
            StepGroup::Carbonation => 1,
            StepGroup::DiacetylRest => 10,
            StepGroup::PrimaryFermentation => 10,
            StepGroup::SecondaryFermentation => 10,
        }
    }

    pub open spec fn spec_post_process_time(self, c: Capacity) -> int {
        self.spec_ppt_minutes() * Self::spec_ppt_factor(c) * 60
    }

    /// Seconds that both the transfer after this step and the following
    /// clean take, on a system of the given capacity.
    pub fn post_process_time(&self, system_capacity: &Capacity) -> (r: i64)
        ensures
            r == self.spec_post_process_time(*system_capacity),
            0 < r <= 600_000_000,
    {
        let factor: i64 = match system_capacity {
            Capacity::G5 | Capacity::G10 | Capacity::G14 | Capacity::G15 => 1,
            Capacity::BBL5 => 2,
            Capacity::BBL7 => 5,
            Capacity::BBL10 => 10,
            Capacity::BBL15 => 20,
            Capacity::UNKNOWN => 1_000_000,
        };
        let minutes: i64 = match self {
            StepGroup::Aging => 2,
            StepGroup::Brewing => 5,
            StepGroup::Carbonation => 1,
            StepGroup::DiacetylRest
            | StepGroup::PrimaryFermentation
            | StepGroup::SecondaryFermentation => 10,
        };
        minutes * factor * 60
    }

    pub open spec fn spec_parse(s: Seq<char>) -> Option<StepGroup> {
        if s == "Aging"@ {
            Some(StepGroup::Aging)
        } else if s == "Brewing"@ {
            Some(StepGroup::Brewing)
        } else if s == "Carbonation"@ {
            Some(StepGroup::Carbonation)
        } else if s == "Diacetyl Rest"@ {
            Some(StepGroup::DiacetylRest)
        } else if s == "Primary Fermentation"@ {
            Some(StepGroup::PrimaryFermentation)
        } else if s == "Secondary Fermentation"@ {
            Some(StepGroup::SecondaryFermentation)
        } else {
            None
        }
    }

    /// Reads a step name.
    pub fn parse(s: &str) -> (r: Option<StepGroup>)
        ensures
            r == Self::spec_parse(s@),
    {
        if str_eq(s, "Aging") {
            Some(StepGroup::Aging)
        } else if str_eq(s, "Brewing") {
            Some(StepGroup::Brewing)
        } else if str_eq(s, "Carbonation") {
            Some(StepGroup::Carbonation)
        } else if str_eq(s, "Diacetyl Rest") {
            Some(StepGroup::DiacetylRest)
        } else if str_eq(s, "Primary Fermentation") {
            Some(StepGroup::PrimaryFermentation)
        } else if str_eq(s, "Secondary Fermentation") {
            Some(StepGroup::SecondaryFermentation)
        } else {
            None
        }
    }
}

impl core::str::FromStr for StepGroup {
    type Err = ();

    fn from_str(s: &str) -> Result<StepGroup, ()> {
        match StepGroup::parse(s) {
            Some(g) => Ok(g),
            None => Err(()),
        }
    }
}

} // verus!
