use crate::strutil::str_eq;
use crate::volume::Volume;
use vstd::prelude::*;

verus! {

/// A batch-size bucket, the sizes a recipe may be brewed at.
#[derive(Clone, Copy, Debug, Hash, PartialEq, Eq, Structural)]
pub enum BatchSize {
    G5,
    G10,
    BBL5,
    BBL7,
    BBL10,
    BBL15,
}

impl BatchSize {
    pub open spec fn spec_lookup(self) -> Seq<char> {
        match self {
            BatchSize::G5 => "5G"@,
            BatchSize::G10 => "10G"@,
            BatchSize::BBL5 => "5BBL"@,
            BatchSize::BBL7 => "7BBL"@,
            BatchSize::BBL10 => "10BBL"@,
            BatchSize::BBL15 => "15BBL"@,
        }
    }

    /// The display token of this batch size.
    pub fn lookup(&self) -> (r: &'static str)
        ensures
            r@ == self.spec_lookup(),
    {
        match self {
            BatchSize::G5 => "5G",
            BatchSize::G10 => "10G",
            BatchSize::BBL5 => "5BBL",
            BatchSize::BBL7 => "7BBL",
            BatchSize::BBL10 => "10BBL",
            BatchSize::BBL15 => "15BBL",
        }
    }

    pub open spec fn spec_volume(self) -> Volume {
        match self {
            BatchSize::G5 => Volume::GallonUS(5_000_000),
            BatchSize::G10 => Volume::GallonUS(10_000_000),
            BatchSize::BBL5 => Volume::BeerBarrel(5_000_000),
            BatchSize::BBL7 => Volume::BeerBarrel(7_000_000),
            BatchSize::BBL10 => Volume::BeerBarrel(10_000_000),
            BatchSize::BBL15 => Volume::BeerBarrel(15_000_000),
        }
    }

    /// The nominal volume of one batch of this size.
    pub fn volume(&self) -> (r: Volume)
        ensures
            r == self.spec_volume(),
    {
        match self {
            BatchSize::G5 => Volume::GallonUS(5_000_000),
            BatchSize::G10 => Volume::GallonUS(10_000_000),
            BatchSize::BBL5 => Volume::BeerBarrel(5_000_000),
            BatchSize::BBL7 => Volume::BeerBarrel(7_000_000),
            BatchSize::BBL10 => Volume::BeerBarrel(10_000_000),
            BatchSize::BBL15 => Volume::BeerBarrel(15_000_000),
        }
    }

    /// Every batch size, smallest first.
    pub fn all() -> (r: Vec<BatchSize>)
        ensures
            r@ =~= seq![
                BatchSize::G5,
                BatchSize::G10,
                BatchSize::BBL5,
                BatchSize::BBL7,
                BatchSize::BBL10,
                BatchSize::BBL15,
            ],
    {
        let mut v: Vec<BatchSize> = Vec::new();
        v.push(BatchSize::G5);
        v.push(BatchSize::G10);
        v.push(BatchSize::BBL5);
        v.push(BatchSize::BBL7);
        v.push(BatchSize::BBL10);
        v.push(BatchSize::BBL15);
        v
    }

    pub open spec fn spec_parse(s: Seq<char>) -> Option<BatchSize> {
        if s == "5G"@ {
            Some(BatchSize::G5)
        } else if s == "10G"@ {
            Some(BatchSize::G10)
        } else if s == "5BBL"@ {
            Some(BatchSize::BBL5)
        } else if s == "10BBL"@ {
            Some(BatchSize::BBL10)
        } else if s == "15BBL"@ {
            Some(BatchSize::BBL15)
        } else {
            None
        }
    }

    /// Reads a batch-size token; `7BBL` has no token of its own here, as
    /// in the catalogue.
    pub fn parse(s: &str) -> (r: Option<BatchSize>)
        ensures
            r == Self::spec_parse(s@),
    {
        if str_eq(s, "5G") {
            Some(BatchSize::G5)
        } else if str_eq(s, "10G") {
            Some(BatchSize::G10)
        } else if str_eq(s, "5BBL") {
            Some(BatchSize::BBL5)
        } else if str_eq(s, "10BBL") {
            Some(BatchSize::BBL10)
        } else if str_eq(s, "15BBL") {
            Some(BatchSize::BBL15)
        } else {
            None
        }
    }
}

impl core::str::FromStr for BatchSize {
    type Err = ();

    fn from_str(s: &str) -> Result<BatchSize, ()> {
        match BatchSize::parse(s) {
            Some(x) => Ok(x),
            None => Err(()),
        }
    }
}

} // verus!
