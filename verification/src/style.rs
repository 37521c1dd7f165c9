use crate::beer_type::Type;
use crate::strutil::str_eq;
use vstd::prelude::*;

verus! {

/// A beer style from the brewery's catalogue.
#[derive(Clone, Copy, Debug, PartialEq, Eq, Structural)]
pub enum Style {
    AmberLager,
    BlondeAle,
    BrownAle,
    CaliforniaCommon,
    FruitBeer,
    IPA,
    ImperialStout,
    IrishRedAle,
    Kellerbier,
    Pilsner,
    SmokedAle,
    SpecialtyStout,
}

impl Style {
    pub open spec fn spec_lookup(self) -> Seq<char> {
        match self {
            Style::AmberLager => "Amber Lager"@,
            Style::BlondeAle => "Blonde Ale"@,
            Style::BrownAle => "Brown Ale"@,
            Style::CaliforniaCommon => "California Common"@,
            Style::FruitBeer => "Fruit Beer"@,
            Style::IPA => "IPA"@,
            Style::ImperialStout => "Imperial Stout"@,
            Style::IrishRedAle => "Irish Red Ale"@,
            Style::Kellerbier => "Kellerbier"@,
            Style::Pilsner => "Pilsner"@,
            Style::SmokedAle => "Smoked Ale"@,
            Style::SpecialtyStout => "Specialty Stout"@,
        }
    }

    /// The display name of this style.
    pub fn lookup(&self) -> (r: &'static str)
        ensures
            r@ == self.spec_lookup(),
    {
        match self {
            Style::AmberLager => "Amber Lager",
            Style::BlondeAle => "Blonde Ale",
            Style::BrownAle => "Brown Ale",
            Style::CaliforniaCommon => "California Common",
            Style::FruitBeer => "Fruit Beer",
            Style::IPA => "IPA",
            Style::ImperialStout => "Imperial Stout",
            Style::IrishRedAle => "Irish Red Ale",
            Style::Kellerbier => "Kellerbier",
            Style::Pilsner => "Pilsner",
            Style::SmokedAle => "Smoked Ale",
            Style::SpecialtyStout => "Specialty Stout",
        }
    }

    pub open spec fn spec_beer_type(self) -> Type {
        match self {
            Style::AmberLager => Type::Lager,
            Style::Kellerbier => Type::Lager,
            Style::Pilsner => Type::Lager,
            _ => Type::Ale,
        }
    }

    /// The family of this style: the three classic lager styles are
    /// lagers, everything else is an ale.
    pub fn beer_type(&self) -> (r: Type)
        ensures
            r == self.spec_beer_type(),
    {
        match self {
            Style::AmberLager | Style::Kellerbier | Style::Pilsner => Type::Lager,
            _ => Type::Ale,
        }
    }

    pub open spec fn spec_parse(s: Seq<char>) -> Option<Style> {
        if s == "Amber Lager"@ {
            Some(Style::AmberLager)
        } else if s == "Blonde Ale"@ {
            Some(Style::BlondeAle)
        } else if s == "Brown Ale"@ {
            Some(Style::BrownAle)
        } else if s == "California Common"@ {
            Some(Style::CaliforniaCommon)
        } else if s == "Fruit Beer"@ {
            Some(Style::FruitBeer)
        } else if s == "IPA"@ {
            Some(Style::IPA)
        } else if s == "Imperial Stout"@ {
            Some(Style::ImperialStout)
        } else if s == "Irish Red Ale"@ {
            Some(Style::IrishRedAle)
        } else if s == "Kellerbier"@ {
            Some(Style::Kellerbier)
        } else if s == "Pilsner"@ {
            Some(Style::Pilsner)
        } else if s == "Smoked Ale"@ {
            Some(Style::SmokedAle)
        } else if s == "Specialty Stout"@ {
            Some(Style::SpecialtyStout)
        } else {
            None
        }
    }

    /// Reads a style name.
    pub fn parse(s: &str) -> (r: Option<Style>)
        ensures
            r == Self::spec_parse(s@),
    {
        if str_eq(s, "Amber Lager") {
            Some(Style::AmberLager)
        } else if str_eq(s, "Blonde Ale") {
            Some(Style::BlondeAle)
        } else if str_eq(s, "Brown Ale") {
            Some(Style::BrownAle)
        } else if str_eq(s, "California Common") {
            Some(Style::CaliforniaCommon)
        } else if str_eq(s, "Fruit Beer") {
            Some(Style::FruitBeer)
        } else if str_eq(s, "IPA") {
            Some(Style::IPA)
        } else if str_eq(s, "Imperial Stout") {
            Some(Style::ImperialStout)
        } else if str_eq(s, "Irish Red Ale") {
            Some(Style::IrishRedAle)
        } else if str_eq(s, "Kellerbier") {
            Some(Style::Kellerbier)
        } else if str_eq(s, "Pilsner") {
            Some(Style::Pilsner)
        } else if str_eq(s, "Smoked Ale") {
            Some(Style::SmokedAle)
        } else if str_eq(s, "Specialty Stout") {
            Some(Style::SpecialtyStout)
        } else {
            None
        }
    }
}

impl core::str::FromStr for Style {
    type Err = ();

    fn from_str(s: &str) -> Result<Style, ()> {
        match Style::parse(s) {
            Some(st) => Ok(st),
            None => Err(()),
        }
    }
}

} // verus!
