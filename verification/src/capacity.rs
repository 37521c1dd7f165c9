use crate::strutil::str_eq;
use crate::volume::Volume;
use vstd::prelude::*;

verus! {

/// Nominal capacity bucket of a brew system.
#[derive(Clone, Copy, Debug, Hash, PartialEq, Eq, Structural)]
pub enum Capacity {
    G5,
    G10,
    G14,
    G15,
    BBL5,
    BBL7,
    BBL10,
    BBL15,
    UNKNOWN,
}

impl Capacity {
    /// Position in the order of capacities, smallest volume first.
    pub open spec fn rank_spec(self) -> int {
        match self {
            Capacity::G5 => 0,
            Capacity::G10 => 1,
            Capacity::G14 => 2,
            Capacity::G15 => 3,
            Capacity::BBL5 => 4,
            Capacity::BBL7 => 5,
            Capacity::BBL10 => 6,
            Capacity::BBL15 => 7,
            Capacity::UNKNOWN => 8,
        }
    }

    /// Position in the order of capacities, smallest volume first.
    pub fn rank(&self) -> (r: u8)
        ensures
            r == self.rank_spec(),
    {
        match self {
            Capacity::G5 => 0,
            Capacity::G10 => 1,
            Capacity::G14 => 2,
            Capacity::G15 => 3,
            Capacity::BBL5 => 4,
            Capacity::BBL7 => 5,
            Capacity::BBL10 => 6,
            Capacity::BBL15 => 7,
            Capacity::UNKNOWN => 8,
        }
    }

    pub open spec fn spec_lookup(self) -> Seq<char> {
        match self {
            Capacity::G5 => "5G"@,
            Capacity::G10 => "10G"@,
            Capacity::G14 => "14G"@,
            Capacity::G15 => "15G"@,
            Capacity::BBL5 => "5BBL"@,
            Capacity::BBL7 => "7BBL"@,
            Capacity::BBL10 => "10BBL"@,
            Capacity::BBL15 => "15BBL"@,
            Capacity::UNKNOWN => "Unknown"@,
        }
    }

    /// The display token of this capacity.
    pub fn lookup(&self) -> (r: &'static str)
        ensures
            r@ == self.spec_lookup(),
    {
        match self {
            Capacity::G5 => "5G",
            Capacity::G10 => "10G",
            Capacity::G14 => "14G",
            Capacity::G15 => "15G",
            Capacity::BBL5 => "5BBL",
            Capacity::BBL7 => "7BBL",
            Capacity::BBL10 => "10BBL",
            Capacity::BBL15 => "15BBL",
            Capacity::UNKNOWN => "Unknown",
        }
    }

    pub open spec fn spec_volume(self) -> Volume {
        match self {
            Capacity::G5 => Volume::GallonUS(5_000_000),
            Capacity::G10 => Volume::GallonUS(10_000_000),
            Capacity::G14 => Volume::GallonUS(14_000_000),
            Capacity::G15 => Volume::GallonUS(15_000_000),
            Capacity::BBL5 => Volume::BeerBarrel(5_000_000),
            Capacity::BBL7 => Volume::BeerBarrel(7_000_000),
            Capacity::BBL10 => Volume::BeerBarrel(10_000_000),
            Capacity::BBL15 => Volume::BeerBarrel(15_000_000),
            Capacity::UNKNOWN => Volume::Liter(0),
        }
    }

    /// The nominal volume of the capacity bucket.
    pub fn volume(&self) -> (r: Volume)
        requires
            !(self is UNKNOWN),
        ensures
            r == self.spec_volume(),
            r.is_liquid(),
            r.amount_spec() <= crate::volume::MAX_AMOUNT,
    {
        match self {
            Capacity::G5 => Volume::GallonUS(5_000_000),
            Capacity::G10 => Volume::GallonUS(10_000_000),
            Capacity::G14 => Volume::GallonUS(14_000_000),
            Capacity::G15 => Volume::GallonUS(15_000_000),
            Capacity::BBL5 => Volume::BeerBarrel(5_000_000),
            Capacity::BBL7 => Volume::BeerBarrel(7_000_000),
            Capacity::BBL10 => Volume::BeerBarrel(10_000_000),
            Capacity::BBL15 => Volume::BeerBarrel(15_000_000),
            Capacity::UNKNOWN => Volume::Liter(0),
        }
    }

    /// Every concrete capacity, smallest volume first; `UNKNOWN` is left out.
    pub fn all() -> (r: Vec<Capacity>)
        ensures
            r@ =~= seq![
                Capacity::G5,
                Capacity::G10,
                Capacity::G14,
                Capacity::G15,
                Capacity::BBL5,
                Capacity::BBL7,
                Capacity::BBL10,
                Capacity::BBL15,
            ],
    {
        let mut v: Vec<Capacity> = Vec::new();
        v.push(Capacity::G5);
        v.push(Capacity::G10);
        v.push(Capacity::G14);
        v.push(Capacity::G15);
        v.push(Capacity::BBL5);
        v.push(Capacity::BBL7);
        v.push(Capacity::BBL10);
        v.push(Capacity::BBL15);
        v
    }

    pub open spec fn spec_parse(s: Seq<char>) -> Option<Capacity> {
        if s == "5g"@ || s == "5G"@ {
            Some(Capacity::G5)
        } else if s == "10g"@ || s == "10G"@ {
            Some(Capacity::G10)
        } else if s == "14g"@ || s == "14G"@ {
            Some(Capacity::G14)
        } else if s == "15g"@ || s == "15G"@ {
            Some(Capacity::G15)
        } else if s == "5bbl"@ || s == "5BBL"@ {
            Some(Capacity::BBL5)
        } else if s == "7bbl"@ || s == "7BBL"@ {
            Some(Capacity::BBL7)
        } else if s == "10bbl"@ || s == "10BBL"@ {
            Some(Capacity::BBL10)
        } else if s == "15bbl"@ || s == "15BBL"@ {
            Some(Capacity::BBL15)
        } else {
            None
        }
    }

    /// Reads a capacity token; accepts both case forms of each token.
    pub fn parse(s: &str) -> (r: Option<Capacity>)
        ensures
            r == Self::spec_parse(s@),
    {
        if str_eq(s, "5g") || str_eq(s, "5G") {
            Some(Capacity::G5)
        } else if str_eq(s, "10g") || str_eq(s, "10G") {
            Some(Capacity::G10)
        } else if str_eq(s, "14g") || str_eq(s, "14G") {
            Some(Capacity::G14)
        } else if str_eq(s, "15g") || str_eq(s, "15G") {
            Some(Capacity::G15)
        } else if str_eq(s, "5bbl") || str_eq(s, "5BBL") {
            Some(Capacity::BBL5)
        } else if str_eq(s, "7bbl") || str_eq(s, "7BBL") {
            Some(Capacity::BBL7)
        } else if str_eq(s, "10bbl") || str_eq(s, "10BBL") {
            Some(Capacity::BBL10)
        } else if str_eq(s, "15bbl") || str_eq(s, "15BBL") {
            Some(Capacity::BBL15)
        } else {
            None
        }
    }
}

impl core::str::FromStr for Capacity {
    type Err = ();

    fn from_str(s: &str) -> Result<Capacity, ()> {
        match Capacity::parse(s) {
            Some(c) => Ok(c),
            None => Err(()),
        }
    }
}

} // verus!
