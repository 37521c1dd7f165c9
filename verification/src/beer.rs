use crate::error::PlanError;
use crate::recipe::Recipe;
use crate::step_group::StepGroup;
use crate::style::Style;
use vstd::prelude::*;

verus! {

/// A beer of the catalogue: its name, its style, and its recipe.
#[derive(Clone, Debug, PartialEq, Eq)]
pub struct Beer {
    pub name: String,
    pub style: Style,
    pub recipe: Recipe,
}

/// Whether a recipe's steps agree with a style's family: every entry has
/// a diacetyl rest exactly when the style is a lager.
pub open spec fn style_consistent(style: Style, recipe: Recipe) -> bool {
    forall|i: int|
        0 <= i < recipe.entries@.len() ==> ((#[trigger] recipe.entries@[i]).2.spec_get(
            StepGroup::DiacetylRest,
        ) is Some) == (style.spec_beer_type() is Lager)
}

impl Beer {
    /// Well-formedness: the recipe is well formed and agrees with the
    /// style's family.
    pub open spec fn wf(self) -> bool {
        &&& self.recipe.wf()
        &&& style_consistent(self.style, self.recipe)
    }

    /// Registers a beer.  Refused when a recipe entry's diacetyl rest
    /// disagrees with the style's family: a lager needs the rest, an ale
    /// must not have it.
    pub fn new(name: String, style: Style, recipe: Recipe) -> (r: Result<Beer, PlanError>)
        ensures
            r is Ok <==> style_consistent(style, recipe),
            r is Ok ==> {
                let b = r->Ok_0;
                &&& b.name@ == name@
                &&& b.style == style
                &&& b.recipe == recipe
                &&& (recipe.wf() ==> b.wf())
            },
            r is Err ==> r->Err_0 is RegistryInvariant,
    {
        let beer_type = style.beer_type();
        let needs_rest = beer_type.needs_diacetyl_rest();
        let n = recipe.entries.len();
        let mut i: usize = 0;
        while i < n
            invariant
                n == recipe.entries@.len(),
                0 <= i <= n,
                needs_rest == (style.spec_beer_type() is Lager),
                forall|j: int|
                    0 <= j < i ==> ((#[trigger] recipe.entries@[j]).2.spec_get(
                        StepGroup::DiacetylRest,
                    ) is Some) == (style.spec_beer_type() is Lager),
            decreases n - i,
        {
            let (_c, _v, steps) = recipe.entries[i];
            if steps.needs_diacetyl_rest() != needs_rest {
                proof {
                    assert(((recipe.entries@[i as int]).2.spec_get(
                        StepGroup::DiacetylRest,
                    ) is Some) != (style.spec_beer_type() is Lager));
                }
                return Err(PlanError::RegistryInvariant);
            }
            i = i + 1;
        }
        Ok(Beer { name, style, recipe })
    }
}

} // verus!
