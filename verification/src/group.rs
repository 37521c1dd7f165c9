use crate::strutil::str_eq;
use vstd::prelude::*;

verus! {

/// A recipe step under its catalogue spelling (`Diactyl Rest`), kept for
/// reading older recipe files.
#[derive(Clone, Copy, Debug, PartialEq, Eq, Structural)]
pub enum Group {
    Brewing,
    PrimaryFermentation,
    DiactylRest,
    SecondaryFermentation,
    Aging,
    Carbonation,
}

impl Group {
    pub open spec fn spec_lookup(self) -> Seq<char> {
        match self {
            Group::Aging => "Aging"@,
            Group::Brewing => "Brewing"@,
            Group::Carbonation => "Carbonation"@,
            Group::DiactylRest => "Diactyl Rest"@,
            Group::PrimaryFermentation => "Primary Fermentation"@,
            Group::SecondaryFermentation => "Secondary Fermentation"@,
        }
    }

    /// The display name of this step.
    pub fn lookup(&self) -> (r: &'static str)
        ensures
            r@ == self.spec_lookup(),
    {
        match self {
            Group::Aging => "Aging",
            Group::Brewing => "Brewing",
            Group::Carbonation => "Carbonation",
            Group::DiactylRest => "Diactyl Rest",
            Group::PrimaryFermentation => "Primary Fermentation",
            Group::SecondaryFermentation => "Secondary Fermentation",
        }
    }

    pub open spec fn spec_parse(s: Seq<char>) -> Option<Group> {
        if s == "Aging"@ {
            Some(Group::Aging)
        } else if s == "Brewing"@ {
            Some(Group::Brewing)
        } else if s == "Carbonation"@ {
            Some(Group::Carbonation)
        } else if s == "Diactyl Rest"@ {
            Some(Group::DiactylRest)
        } else if s == "Primary Fermentation"@ {
            Some(Group::PrimaryFermentation)
        } else if s == "Secondary Fermentation"@ {
            Some(Group::SecondaryFermentation)
        } else {
            None
        }
    }

    /// Reads a step name in the catalogue spelling.
    pub fn parse(s: &str) -> (r: Option<Group>)
        ensures
            r == Self::spec_parse(s@),
    {
        if str_eq(s, "Aging") {
            Some(Group::Aging)
        } else if str_eq(s, "Brewing") {
            Some(Group::Brewing)
        } else if str_eq(s, "Carbonation") {
            Some(Group::Carbonation)
        } else if str_eq(s, "Diactyl Rest") {
            Some(Group::DiactylRest)
        } else if str_eq(s, "Primary Fermentation") {
            Some(Group::PrimaryFermentation)
        } else if str_eq(s, "Secondary Fermentation") {
            Some(Group::SecondaryFermentation)
        } else {
            None
        }
    }
}

impl core::str::FromStr for Group {
    type Err = ();

    fn from_str(s: &str) -> Result<Group, ()> {
        match Group::parse(s) {
            Some(g) => Ok(g),
            None => Err(()),
        }
    }
}

} // verus!
