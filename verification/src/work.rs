use crate::strutil::str_eq;
use vstd::prelude::*;

verus! {

/// The two kinds of manual work that follow a step's processing.
#[derive(Clone, Copy, Debug, PartialEq, Eq, Structural)]
pub enum Work {
    Transfer,
    Clean,
}

impl Work {
    pub open spec fn spec_lookup(self) -> Seq<char> {
        match self {
            Work::Transfer => "Transfer"@,
            Work::Clean => "Clean"@,
        }
    }

    /// The display name of this kind of work.
    pub fn lookup(&self) -> (r: &'static str)
        ensures
            r@ == self.spec_lookup(),
    {
        match self {
            Work::Transfer => "Transfer",
            Work::Clean => "Clean",
        }
    }

    pub open spec fn spec_parse(s: Seq<char>) -> Option<Work> {
        if s == "Transfer"@ {
            Some(Work::Transfer)
        } else if s == "Clean"@ {
            Some(Work::Clean)
        } else {
            None
        }
    }

    /// Reads a work name.
    pub fn parse(s: &str) -> (r: Option<Work>)
        ensures
            r == Self::spec_parse(s@),
    {
        if str_eq(s, "Transfer") {
            Some(Work::Transfer)
        } else if str_eq(s, "Clean") {
            Some(Work::Clean)
        } else {
            None
        }
    }
}

impl core::str::FromStr for Work {
    type Err = ();

    fn from_str(s: &str) -> Result<Work, ()> {
        match Work::parse(s) {
            Some(w) => Ok(w),
            None => Err(()),
        }
    }
}

} // verus!
