use vstd::prelude::*;

verus! {

/// The error kinds the planner surfaces.
#[derive(Clone, Debug, PartialEq, Eq)]
pub enum PlanError {
    /// A malformed configuration: an unknown token or a duplicate name.
    ConfigParse,
    /// A registration that breaks a registry invariant: a yield above the
    /// capacity, or a style whose steps disagree with its family.
    RegistryInvariant,
    /// The solver found the requested plan unsatisfiable.
    PlannerInfeasible,
    /// The solver gave up; the payload is its reason, where it gave one.
    PlannerTimeout(String),
    /// A solution came back that breaks the model's own constraints.
    InternalInvariant,
}

impl PlanError {
    /// A short display name for the error kind.
    pub fn kind_name(&self) -> (r: &'static str)
        ensures
            r@ == self.spec_kind_name(),
    {
        match self {
            PlanError::ConfigParse => "configuration error",
            PlanError::RegistryInvariant => "registry invariant broken",
            PlanError::PlannerInfeasible => "planning infeasible",
            PlanError::PlannerTimeout(_) => "planner timeout",
            PlanError::InternalInvariant => "internal invariant broken",
        }
    }

    pub open spec fn spec_kind_name(self) -> Seq<char> {
        match self {
            PlanError::ConfigParse => "configuration error"@,
            PlanError::RegistryInvariant => "registry invariant broken"@,
            PlanError::PlannerInfeasible => "planning infeasible"@,
            PlanError::PlannerTimeout(_) => "planner timeout"@,
            PlanError::InternalInvariant => "internal invariant broken"@,
        }
    }
}

} // verus!
