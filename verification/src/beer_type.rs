use vstd::prelude::*;

verus! {

/// The broad family a beer style belongs to.
#[derive(Clone, Copy, Debug, PartialEq, Eq, Structural)]
pub enum Type {
    Lager,
    Ale,
}

impl Type {
    /// Lagers need a diacetyl rest; ales must not have one.
    pub fn needs_diacetyl_rest(&self) -> (r: bool)
        ensures
            r == (self is Lager),
    {
        match self {
            Type::Lager => true,
            Type::Ale => false,
        }
    }
}

} // verus!
