use crate::strutil::str_eq;
use crate::volume::Volume;
use vstd::prelude::*;

verus! {

/// A brew-system size, named by its capacity token.
#[derive(Clone, Copy, Debug, Hash, PartialEq, Eq, Structural)]
pub enum System {
    G5,
    G10,
    BBL5,
    BBL7,
    BBL10,
    BBL15,
}

impl System {
    pub open spec fn spec_lookup(self) -> Seq<char> {
        match self {
            System::G5 => "5G"@,
            System::G10 => "10G"@,
            System::BBL5 => "5BBL"@,
            System::BBL7 => "7BBL"@,
            System::BBL10 => "10BBL"@,
            System::BBL15 => "15BBL"@,
        }
    }

    /// The display token of this system size.
    pub fn lookup(&self) -> (r: &'static str)
        ensures
            r@ == self.spec_lookup(),
    {
        match self {
            System::G5 => "5G",
            System::G10 => "10G",
            System::BBL5 => "5BBL",
            System::BBL7 => "7BBL",
            System::BBL10 => "10BBL",
            System::BBL15 => "15BBL",
        }
    }

    pub open spec fn spec_volume(self) -> Volume {
        match self {
            System::G5 => Volume::GallonUS(5_000_000),
            System::G10 => Volume::GallonUS(10_000_000),
            System::BBL5 => Volume::GallonUS(210_000_000),
            System::BBL7 => Volume::GallonUS(294_000_000),
            System::BBL10 => Volume::GallonUS(420_000_000),
            System::BBL15 => Volume::GallonUS(630_000_000),
        }
    }

    /// The nominal volume, with barrels given as 42-gallon multiples.
    pub fn volume(&self) -> (r: Volume)
        ensures
            r == self.spec_volume(),
    {
        match self {
            System::G5 => Volume::GallonUS(5_000_000),
            System::G10 => Volume::GallonUS(10_000_000),
            System::BBL5 => Volume::GallonUS(210_000_000),
            System::BBL7 => Volume::GallonUS(294_000_000),
            System::BBL10 => Volume::GallonUS(420_000_000),
            System::BBL15 => Volume::GallonUS(630_000_000),
        }
    }

    /// Every system size, smallest first.
    pub fn all() -> (r: Vec<System>)
        ensures
            r@ =~= seq![
                System::G5,
                System::G10,
                System::BBL5,
                System::BBL7,
                System::BBL10,
                System::BBL15,
            ],
    {
        let mut v: Vec<System> = Vec::new();
        v.push(System::G5);
        v.push(System::G10);
        v.push(System::BBL5);
        v.push(System::BBL7);
        v.push(System::BBL10);
        v.push(System::BBL15);
        v
    }

    pub open spec fn spec_parse(s: Seq<char>) -> Option<System> {
        if s == "5G"@ {
            Some(System::G5)
        } else if s == "10G"@ {
            Some(System::G10)
        } else if s == "5BBL"@ {
            Some(System::BBL5)
        } else if s == "10BBL"@ {
            Some(System::BBL10)
        } else if s == "15BBL"@ {
            Some(System::BBL15)
        } else {
            None
        }
    }

    /// Reads a system token; `7BBL` has no token of its own here, as in
    /// the catalogue.
    pub fn parse(s: &str) -> (r: Option<System>)
        ensures
            r == Self::spec_parse(s@),
    {
        if str_eq(s, "5G") {
            Some(System::G5)
        } else if str_eq(s, "10G") {
            Some(System::G10)
        } else if str_eq(s, "5BBL") {
            Some(System::BBL5)
        } else if str_eq(s, "10BBL") {
            Some(System::BBL10)
        } else if str_eq(s, "15BBL") {
            Some(System::BBL15)
        } else {
            None
        }
    }
}

impl core::str::FromStr for System {
    type Err = ();

    fn from_str(s: &str) -> Result<System, ()> {
        match System::parse(s) {
            Some(x) => Ok(x),
            None => Err(()),
        }
    }
}

} // verus!
