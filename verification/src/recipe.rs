use crate::capacity::Capacity;
use crate::error::PlanError;
use crate::steps::Steps;
use crate::volume::{Volume, MAX_AMOUNT};
use vstd::prelude::*;

verus! {

/// One recipe entry: a brewable capacity bucket, the yield one batch of it
/// gives, and the steps it takes.
pub type RecipeEntry = (Capacity, Volume, Steps);

/// Whether one entry is acceptable: a known capacity, a liquid yield in
/// range, and the yield no more than the capacity holds.
pub open spec fn entry_ok(e: RecipeEntry) -> bool {
    &&& !(e.0 is UNKNOWN)
    &&& e.1.is_liquid()
    &&& e.1.amount_spec() <= MAX_AMOUNT
    &&& e.0.spec_volume().microliters_spec() >= e.1.microliters_spec()
}

/// The first entry for a capacity, if any.
pub open spec fn spec_find(s: Seq<RecipeEntry>, c: Capacity) -> Option<(Volume, Steps)>
    decreases s.len(),
{
    if s.len() == 0 {
        None
    } else if s[0].0 == c {
        Some((s[0].1, s[0].2))
    } else {
        spec_find(s.drop_first(), c)
    }
}

/// Skipping entries whose capacity is not `c` leaves the find unchanged.
proof fn lemma_find_skip(s: Seq<RecipeEntry>, c: Capacity, i: int)
    requires
        0 <= i <= s.len(),
        forall|j: int| 0 <= j < i ==> s[j].0 != c,
    ensures
        spec_find(s, c) == spec_find(s.skip(i), c),
    decreases i,
{
    if i > 0 {
        assert(s.drop_first() =~= s.skip(1));
        lemma_find_skip(s.drop_first(), c, i - 1);
        assert(s.drop_first().skip(i - 1) =~= s.skip(i));
    } else {
        assert(s.skip(0) =~= s);
    }
}

/// A find that misses means no entry carries the capacity.
proof fn lemma_find_none(s: Seq<RecipeEntry>, c: Capacity)
    requires
        spec_find(s, c) is None,
    ensures
        forall|j: int| 0 <= j < s.len() ==> (#[trigger] s[j]).0 != c,
    decreases s.len(),
{
    if s.len() > 0 {
        lemma_find_none(s.drop_first(), c);
        assert forall|j: int| 0 <= j < s.len() implies (#[trigger] s[j]).0 != c by {
            if j > 0 {
                assert(s.drop_first()[j - 1] == s[j]);
            }
        }
    }
}

/// A recipe: how each brewable capacity bucket yields beer and which
/// steps it takes there.
#[derive(Clone, Debug, PartialEq, Eq)]
pub struct Recipe {
    pub entries: Vec<RecipeEntry>,
}

impl Recipe {
    /// Well-formedness: every entry acceptable, no capacity listed twice.
    pub open spec fn wf(self) -> bool {
        &&& forall|i: int| 0 <= i < self.entries@.len() ==> entry_ok(#[trigger] self.entries@[i])
        &&& forall|i: int, j: int|
            0 <= i < j < self.entries@.len() ==> (#[trigger] self.entries@[i]).0 != (
            #[trigger] self.entries@[j]).0
    }

    /// The yield and steps this recipe has for a capacity, if any.
    pub open spec fn spec_get(self, c: Capacity) -> Option<(Volume, Steps)> {
        spec_find(self.entries@, c)
    }

    /// A recipe with no entries.
    pub fn blank() -> (r: Recipe)
        ensures
            r.entries@.len() == 0,
            r.wf(),
    {
        Recipe { entries: Vec::new() }
    }

    /// A recipe with a single entry.  Refused when the yield is no liquid,
    /// out of range, or more than the capacity holds.
    pub fn new(system_capacity: Capacity, batch_size: Volume, steps: Steps) -> (r: Result<
        Recipe,
        PlanError,
    >)
        ensures
            r is Ok <==> entry_ok((system_capacity, batch_size, steps)),
            r is Ok ==> {
                let rec = r->Ok_0;
                &&& rec.wf()
                &&& rec.entries@ =~= seq![(system_capacity, batch_size, steps)]
                &&& rec.spec_get(system_capacity) == Some((batch_size, steps))
            },
            r is Err ==> r->Err_0 is RegistryInvariant,
    {
        let mut rec = Recipe::blank();
        match rec.store(system_capacity, batch_size, steps) {
            Ok(_) => Ok(rec),
            Err(e) => Err(e),
        }
    }

    /// Adds an entry.  Refused for an already-listed capacity and for an
    /// entry that breaks the yield invariant; the recipe is then unchanged.
    pub fn store(&mut self, system_capacity: Capacity, batch_size: Volume, steps: Steps) -> (r:
        Result<(), PlanError>)
        ensures
            r is Ok <==> (entry_ok((system_capacity, batch_size, steps)) && old(self).spec_get(
                system_capacity,
            ) is None),
            r is Ok ==> final(self).entries@ =~= old(self).entries@.push(
                (system_capacity, batch_size, steps),
            ),
            r is Err ==> *final(self) == *old(self),
            r is Err ==> (r->Err_0 is RegistryInvariant || r->Err_0 is ConfigParse),
            r is Err && entry_ok((system_capacity, batch_size, steps)) ==> r->Err_0 is ConfigParse,
            r is Err && !entry_ok((system_capacity, batch_size, steps)) ==> r->Err_0
                is RegistryInvariant,
            old(self).wf() && r is Ok ==> final(self).wf(),
    {
        if matches!(system_capacity, Capacity::UNKNOWN) {
            return Err(PlanError::RegistryInvariant);
        }
        if matches!(batch_size, Volume::Lb(_)) {
            return Err(PlanError::RegistryInvariant);
        }
        let amt_ok = match &batch_size {
            Volume::BeerBarrel(x) => *x <= MAX_AMOUNT,
            Volume::GallonUS(x) => *x <= MAX_AMOUNT,
            Volume::GallonUSDry(x) => *x <= MAX_AMOUNT,
            Volume::GallonImperial(x) => *x <= MAX_AMOUNT,
            Volume::Liter(x) => *x <= MAX_AMOUNT,
            Volume::Lb(x) => *x <= MAX_AMOUNT,
        };
        if !amt_ok {
            return Err(PlanError::RegistryInvariant);
        }
        if !system_capacity.volume().ge(&batch_size) {
            return Err(PlanError::RegistryInvariant);
        }
        if self.get(&system_capacity).is_some() {
            return Err(PlanError::ConfigParse);
        }
        proof {
            lemma_find_none(self.entries@, system_capacity);
        }
        self.entries.push((system_capacity, batch_size, steps));
        Ok(())
    }

    /// The yield and steps for a capacity, if the recipe has them.
    pub fn get(&self, system_capacity: &Capacity) -> (r: Option<(Volume, Steps)>)
        ensures
            r == self.spec_get(*system_capacity),
    {
        let n = self.entries.len();
        let mut i: usize = 0;
        while i < n
            invariant
                n == self.entries@.len(),
                0 <= i <= n,
                forall|j: int| 0 <= j < i ==> (#[trigger] self.entries@[j]).0 != *system_capacity,
            decreases n - i,
        {
            let (c, v, s) = self.entries[i];
            if c == *system_capacity {
                proof {
                    lemma_find_skip(self.entries@, *system_capacity, i as int);
                    assert(self.entries@.skip(i as int)[0] == self.entries@[i as int]);
                }
                return Some((v, s));
            }
            i = i + 1;
        }
        proof {
            lemma_find_skip(self.entries@, *system_capacity, n as int);
            assert(self.entries@.skip(n as int) =~= Seq::<RecipeEntry>::empty());
        }
        None
    }
}

} // verus!
