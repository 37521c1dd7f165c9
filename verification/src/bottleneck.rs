use crate::batchneed::BatchNeed;
use crate::capacity::Capacity;
use crate::equipment::Equipment;
use crate::equipment_group::EquipmentGroup;
use crate::factory::{suits, Factory};
use crate::interval::Interval;
use crate::plan::spec_batch_steps;
use crate::sizer::batch_ok;
use crate::step_group::StepGroup;
use vstd::prelude::*;

verus! {

/// Sum of the nominal durations of the steps of one recipe that belong
/// to the given step group, in seconds.
pub open spec fn steps_total(steps: Seq<(StepGroup, Interval)>, g: StepGroup) -> int
    decreases steps.len(),
{
    if steps.len() == 0 {
        0
    } else {
        steps_total(steps.drop_last(), g) + if steps.last().0 == g {
            steps.last().1.spec_duration()
        } else {
            0
        }
    }
}

/// Whether some step of the recipe belongs to the group.
pub open spec fn steps_has(steps: Seq<(StepGroup, Interval)>, g: StepGroup) -> bool {
    exists|t: int| 0 <= t < steps.len() && (#[trigger] steps[t]).0 == g
}

/// Total seconds that the given (capacity, step group) is occupied over
/// all batches, using nominal durations.
pub open spec fn step_total(
    f: Factory,
    batches: Seq<BatchNeed>,
    c: Capacity,
    g: StepGroup,
) -> int
    decreases batches.len(),
{
    if batches.len() == 0 {
        0
    } else {
        step_total(f, batches.drop_last(), c, g) + if batches.last().system == c {
            steps_total(spec_batch_steps(f, batches.last()), g)
        } else {
            0
        }
    }
}

/// Whether any batch of this capacity has a step of this group.
pub open spec fn step_occurs(f: Factory, batches: Seq<BatchNeed>, c: Capacity, g: StepGroup) -> bool {
    exists|k: int|
        0 <= k < batches.len() && (#[trigger] batches[k]).system == c && steps_has(
            spec_batch_steps(f, batches[k]),
            g,
        )
}

/// What the per-step bottleneck table says: entries sorted by occupancy,
/// heaviest first; unique keys; each entry carries the exact total of
/// its key; and exactly the keys that occur among the batches appear.
pub open spec fn step_table_ok(
    f: Factory,
    batches: Seq<BatchNeed>,
    r: Seq<(Capacity, StepGroup, i64)>,
) -> bool {
    &&& forall|i: int, j: int| 0 <= i < j < r.len() ==> (#[trigger] r[i]).2 >= (#[trigger] r[j]).2
    &&& forall|i: int, j: int|
        0 <= i < j < r.len() ==> ((#[trigger] r[i]).0, r[i].1) != ((#[trigger] r[j]).0, r[j].1)
    &&& forall|i: int|
        0 <= i < r.len() ==> step_occurs(f, batches, (#[trigger] r[i]).0, r[i].1) && r[i].2
            == step_total(f, batches, r[i].0, r[i].1)
    &&& forall|c: Capacity, g: StepGroup|
        #[trigger] step_occurs(f, batches, c, g) ==> exists|i: int|
            0 <= i < r.len() && ((#[trigger] r[i]).0, r[i].1) == (c, g)
}

/// The nominal seconds a batch's steps of one group take, computed
/// executably.
#[verifier::loop_isolation(false)]
fn steps_total_exec(steps: &Vec<(StepGroup, Interval)>, g: &StepGroup) -> (r: i64)
    requires
        steps@.len() <= 6,
    ensures
        r == steps_total(steps@, *g),
        0 <= r <= 6 * 700_700_000,
    decreases steps@.len(),
{
    let mut acc: i64 = 0;
    let mut t: usize = 0;
    while t < steps.len()
        invariant
            0 <= t <= steps@.len(),
            acc == steps_total(steps@.take(t as int), *g),
            0 <= acc <= t * 700_700_000,
        decreases steps@.len() - t,
    {
        proof {
            assert(steps@.take(t as int + 1).drop_last() =~= steps@.take(t as int));
            assert(steps@.take(t as int + 1).last() == steps@[t as int]);
        }
        let (sg, iv) = steps[t];
        if sg == *g {
            let d = iv.duration();
            acc = acc + d;
        }
        t = t + 1;
    }
    proof {
        assert(steps@.take(steps@.len() as int) =~= steps@);
    }
    acc
}

impl Factory {
    /// The equipment serving the given capacity and group, in registry
    /// order: each suited vessel exactly once (the names pairwise
    /// differ), every suited vessel included, nothing else.
    pub fn list_suited_equipment(
        &self,
        system: &Capacity,
        equipment_group: &EquipmentGroup,
    ) -> (r: Vec<Equipment>)
        requires
            self.wf(),
        ensures
            forall|j: int|
                0 <= j < r@.len() ==> suits(#[trigger] r@[j], *system, *equipment_group)
                    && self.equipments@.contains(r@[j]),
            forall|k: int|
                0 <= k < self.equipments@.len() && suits(
                    #[trigger] self.equipments@[k],
                    *system,
                    *equipment_group,
                ) ==> r@.contains(self.equipments@[k]),
            forall|j1: int, j2: int|
                0 <= j1 < j2 < r@.len() ==> (#[trigger] r@[j1]).name@ != (#[trigger] r@[j2]).name@,
    {
        let idx = self.suited_indices(system, equipment_group);
        let mut r: Vec<Equipment> = Vec::new();
        let mut j: usize = 0;
        while j < idx.len()
            invariant
                0 <= j <= idx@.len(),
                r@.len() == j,
                forall|jj: int|
                    0 <= jj < idx@.len() ==> (#[trigger] idx@[jj]) < self.equipments@.len()
                        && suits(
                        self.equipments@[idx@[jj] as int],
                        *system,
                        *equipment_group,
                    ),
                forall|jj: int| 0 <= jj < j ==> r@[jj] == self.equipments@[idx@[jj] as int],
                forall|k: int|
                    0 <= k < self.equipments@.len() && suits(
                        #[trigger] self.equipments@[k],
                        *system,
                        *equipment_group,
                    ) ==> idx@.contains(k as usize),
            decreases idx@.len() - j,
        {
            r.push(self.equipments[idx[j]].clone());
            j = j + 1;
        }
        proof {
            assert forall|jj: int| 0 <= jj < r@.len() implies suits(
                #[trigger] r@[jj],
                *system,
                *equipment_group,
            ) && self.equipments@.contains(r@[jj]) by {
                assert(r@[jj] == self.equipments@[idx@[jj] as int]);
            }
            assert forall|k: int|
                0 <= k < self.equipments@.len() && suits(
                    #[trigger] self.equipments@[k],
                    *system,
                    *equipment_group,
                ) implies r@.contains(self.equipments@[k]) by {
                broadcast use vstd::std_specs::vec::axiom_spec_len;

                assert(self.equipments@.len() == vstd::std_specs::vec::spec_vec_len(
                    &self.equipments,
                ));
                assert(idx@.contains(k as usize));
                let jj = choose|jj: int| 0 <= jj < idx@.len() && idx@[jj] == k as usize;
                assert(r@[jj] == self.equipments@[idx@[jj] as int]);
                assert(idx@[jj] as int == k);
                assert(r@[jj] == self.equipments@[k]);
            }
            // strictly increasing indices into a unique-name registry
            // list each vessel at most once
            assert forall|j1: int, j2: int| 0 <= j1 < j2 < r@.len() implies (
            #[trigger] r@[j1]).name@ != (#[trigger] r@[j2]).name@ by {
                assert(r@[j1] == self.equipments@[idx@[j1] as int]);
                assert(r@[j2] == self.equipments@[idx@[j2] as int]);
                assert(idx@[j1] < idx@[j2]);
            }
        }
        r
    }

    /// Total occupancy per (capacity, step group), summed over all
    /// batches with nominal durations.
    #[verifier::loop_isolation(false)]
    fn step_total_exec(
        &self,
        batches: &Vec<BatchNeed>,
        c: &Capacity,
        g: &StepGroup,
    ) -> (r: i64)
        requires
            self.wf(),
            forall|k: int| 0 <= k < batches@.len() ==> batch_ok(*self, #[trigger] batches@[k]),
            batches@.len() <= 100_000_000,
        ensures
            r == step_total(*self, batches@, *c, *g),
            0 <= r <= batches@.len() * 4_204_200_000,
    {
        let mut acc: i64 = 0;
        let mut k: usize = 0;
        while k < batches.len()
            invariant
                0 <= k <= batches@.len(),
                acc == step_total(*self, batches@.take(k as int), *c, *g),
                0 <= acc <= k * 4_204_200_000,
            decreases batches@.len() - k,
        {
            proof {
                assert(batches@.take(k as int + 1).drop_last() =~= batches@.take(k as int));
                assert(batches@.take(k as int + 1).last() == batches@[k as int]);
            }
            let batch = &batches[k];
            if batch.system == *c {
                let steps = self.batch_steps_exec(batch);
                let d = steps_total_exec(&steps, g);
                acc = acc + d;
            }
            k = k + 1;
        }
        proof {
            assert(batches@.take(batches@.len() as int) =~= batches@);
        }
        acc
    }

    /// The step list of one batch, read from the registry.
    #[verifier::loop_isolation(false)]
    pub fn batch_steps_exec(&self, batch: &BatchNeed) -> (r: Vec<(StepGroup, Interval)>)
        requires
            self.wf(),
            batch_ok(*self, *batch),
        ensures
            r@ == spec_batch_steps(*self, *batch),
            r@.len() <= 6,
    {
        let bi = match self.find_beer(batch.beer_name.as_str()) {
            Some(bi) => bi,
            None => {
                proof {
                    crate::sizer::lemma_find_beer_member(self.beers@, batch.beer_name@);
                }
                vstd::pervasive::unreached()
            },
        };
        proof {
            crate::sizer::lemma_find_beer_at(self.beers@, batch.beer_name@, bi as int);
        }
        let beer = &self.beers[bi];
        let (_y, st) = match beer.recipe.get(&batch.system) {
            Some(x) => x,
            None => vstd::pervasive::unreached(),
        };
        st.iter()
    }

    /// Whether some batch of this capacity has a step of this group.
    #[verifier::loop_isolation(false)]
    fn step_occurs_exec(
        &self,
        batches: &Vec<BatchNeed>,
        c: &Capacity,
        g: &StepGroup,
    ) -> (r: bool)
        requires
            self.wf(),
            forall|k: int| 0 <= k < batches@.len() ==> batch_ok(*self, #[trigger] batches@[k]),
        ensures
            r == step_occurs(*self, batches@, *c, *g),
    {
        let mut k: usize = 0;
        while k < batches.len()
            invariant
                0 <= k <= batches@.len(),
                forall|kk: int|
                    0 <= kk < k ==> !((#[trigger] batches@[kk]).system == *c && steps_has(
                        spec_batch_steps(*self, batches@[kk]),
                        *g,
                    )),
            decreases batches@.len() - k,
        {
            let batch = &batches[k];
            if batch.system == *c {
                let steps = self.batch_steps_exec(batch);
                let mut t: usize = 0;
                let n = steps.len();
                while t < n
                    invariant
                        0 <= t <= n,
                        n == steps@.len(),
                        steps@ == spec_batch_steps(*self, batches@[k as int]),
                        k < batches@.len(),
                        forall|tt: int| 0 <= tt < t ==> (#[trigger] steps@[tt]).0 != *g,
                    decreases n - t,
                {
                    let (sg, _iv) = steps[t];
                    if sg == *g {
                        return true;
                    }
                    t = t + 1;
                }
            }
            k = k + 1;
        }
        false
    }
}

/// How many entries of a marker list are still false.
pub open spec fn count_false(s: Seq<bool>) -> int
    decreases s.len(),
{
    if s.len() == 0 {
        0
    } else {
        count_false(s.drop_last()) + if s.last() {
            0int
        } else {
            1int
        }
    }
}

/// Marking one unmarked entry lowers the false count by one.
proof fn lemma_count_false_update(s: Seq<bool>, j: int)
    requires
        0 <= j < s.len(),
        !s[j],
    ensures
        count_false(s.update(j, true)) == count_false(s) - 1,
    decreases s.len(),
{
    let u = s.update(j, true);
    if j == s.len() - 1 {
        assert(u.drop_last() =~= s.drop_last());
    } else {
        assert(u.drop_last() =~= s.drop_last().update(j, true));
        lemma_count_false_update(s.drop_last(), j);
    }
}

/// A positive false count exhibits an unmarked entry.
proof fn lemma_count_false_pos(s: Seq<bool>)
    requires
        count_false(s) > 0,
    ensures
        exists|j: int| 0 <= j < s.len() && !(#[trigger] s[j]),
    decreases s.len(),
{
    if s.len() > 0 {
        if !s.last() {
            assert(!s[s.len() - 1]);
        } else {
            lemma_count_false_pos(s.drop_last());
            let j = choose|j: int| 0 <= j < s.drop_last().len() && !(#[trigger] s.drop_last()[j]);
            assert(!s[j]);
        }
    }
}

/// A false count is never negative.
proof fn lemma_count_false_nonneg(s: Seq<bool>)
    ensures
        count_false(s) >= 0,
    decreases s.len(),
{
    if s.len() > 0 {
        lemma_count_false_nonneg(s.drop_last());
    }
}

/// An all-marked list has false count zero, and the other way round.
proof fn lemma_count_false_zero(s: Seq<bool>)
    requires
        count_false(s) == 0,
    ensures
        forall|j: int| 0 <= j < s.len() ==> #[trigger] s[j],
    decreases s.len(),
{
    if s.len() > 0 {
        lemma_count_false_nonneg(s.drop_last());
        if !s.last() {
            assert(false);
        }
        lemma_count_false_zero(s.drop_last());
        assert forall|j: int| 0 <= j < s.len() implies #[trigger] s[j] by {
            if j < s.len() - 1 {
                assert(s.drop_last()[j] == s[j]);
            }
        }
    }
}


/// Emitting the heaviest unmarked candidate keeps the selection
/// invariants: order, provenance both ways, and the bound on what is
/// left.
#[verifier::rlimit(100)]
proof fn lemma_sort_push(
    cands: Seq<(Capacity, StepGroup, i64)>,
    old_used: Seq<bool>,
    old_out: Seq<(Capacity, StepGroup, i64)>,
    mi: int,
)
    requires
        old_used.len() == cands.len(),
        0 <= mi < cands.len(),
        !old_used[mi],
        forall|jj: int|
            0 <= jj < cands.len() && !(#[trigger] old_used[jj]) ==> cands[jj].2 <= cands[mi].2,
        forall|i: int, j: int|
            0 <= i < j < old_out.len() ==> (#[trigger] old_out[i]).2 >= (#[trigger] old_out[j]).2,
        forall|j: int|
            0 <= j < cands.len() && !(#[trigger] old_used[j]) ==> (old_out.len() > 0
                ==> cands[j].2 <= old_out[old_out.len() - 1].2),
        forall|i: int|
            0 <= i < old_out.len() ==> exists|j: int|
                0 <= j < cands.len() && old_used[j] && #[trigger] old_out[i] == cands[j],
        forall|j: int|
            0 <= j < cands.len() && #[trigger] old_used[j] ==> exists|i: int|
                0 <= i < old_out.len() && old_out[i] == cands[j],
        forall|j1: int, j2: int|
            0 <= j1 < j2 < cands.len() ==> #[trigger] cands[j1] != #[trigger] cands[j2],
        forall|i1: int, i2: int|
            0 <= i1 < i2 < old_out.len() ==> #[trigger] old_out[i1] != #[trigger] old_out[i2],
    ensures
        ({
            let used = old_used.update(mi, true);
            let out = old_out.push(cands[mi]);
            &&& forall|i: int, j: int|
                0 <= i < j < out.len() ==> (#[trigger] out[i]).2 >= (#[trigger] out[j]).2
            &&& forall|j: int|
                0 <= j < cands.len() && !(#[trigger] used[j]) ==> (out.len() > 0 ==> cands[j].2
                    <= out[out.len() - 1].2)
            &&& forall|i: int|
                0 <= i < out.len() ==> exists|j: int|
                    0 <= j < cands.len() && used[j] && #[trigger] out[i] == cands[j]
            &&& forall|j: int|
                0 <= j < cands.len() && #[trigger] used[j] ==> exists|i: int|
                    0 <= i < out.len() && out[i] == cands[j]
            &&& forall|i1: int, i2: int|
                0 <= i1 < i2 < out.len() ==> #[trigger] out[i1] != #[trigger] out[i2]
        }),
{
    let used = old_used.update(mi, true);
    let out = old_out.push(cands[mi]);
    assert(out[out.len() - 1] == cands[mi]);
    assert forall|i: int, j: int|
        0 <= i < j < out.len() implies (#[trigger] out[i]).2 >= (#[trigger] out[j]).2 by {
        if j < out.len() - 1 {
            assert(out[i] == old_out[i] && out[j] == old_out[j]);
        } else {
            if i < out.len() - 1 {
                assert(out[i] == old_out[i]);
            }
        }
    }
    assert forall|i: int| 0 <= i < out.len() implies exists|j: int|
        0 <= j < cands.len() && used[j] && #[trigger] out[i] == cands[j] by {
        if i < old_out.len() {
            let j = choose|j: int|
                0 <= j < cands.len() && old_used[j] && #[trigger] old_out[i] == cands[j];
            assert(used[j] && out[i] == cands[j]);
        } else {
            assert(used[mi] && out[i] == cands[mi]);
        }
    }
    assert forall|j: int| 0 <= j < cands.len() && #[trigger] used[j] implies exists|i: int|
        0 <= i < out.len() && out[i] == cands[j] by {
        if j == mi {
            assert(out[out.len() - 1] == cands[mi]);
        } else {
            assert(old_used[j]);
            let i = choose|i: int| 0 <= i < old_out.len() && #[trigger] old_out[i] == cands[j];
            assert(out[i] == cands[j]);
        }
    }
    assert forall|i1: int, i2: int|
        0 <= i1 < i2 < out.len() implies #[trigger] out[i1] != #[trigger] out[i2] by {
        if i2 == out.len() - 1 {
            let j1 = choose|j1: int|
                0 <= j1 < cands.len() && old_used[j1] && #[trigger] old_out[i1] == cands[j1];
            assert(out[i1] == cands[j1] && out[i2] == cands[mi]);
            assert(j1 != mi);
            if j1 < mi {
                assert(cands[j1] != cands[mi]);
            } else {
                assert(cands[mi] != cands[j1]);
            }
        } else {
            assert(out[i1] == old_out[i1] && out[i2] == old_out[i2]);
        }
    }
}

/// Orders a candidate table by occupancy, heaviest first.  The result
/// holds exactly the candidates, each once, in descending order.
#[verifier::loop_isolation(false)]
#[verifier::rlimit(100)]
fn sort_step_desc(cands: &Vec<(Capacity, StepGroup, i64)>) -> (r: Vec<(Capacity, StepGroup, i64)>)
    requires
        forall|j1: int, j2: int|
            0 <= j1 < j2 < cands@.len() ==> #[trigger] cands@[j1] != #[trigger] cands@[j2],
    ensures
        r@.len() == cands@.len(),
        forall|i1: int, i2: int|
            0 <= i1 < i2 < r@.len() ==> #[trigger] r@[i1] != #[trigger] r@[i2],
        forall|i: int, j: int| 0 <= i < j < r@.len() ==> (#[trigger] r@[i]).2 >= (#[trigger] r@[j]).2,
        forall|i: int|
            0 <= i < r@.len() ==> exists|j: int|
                0 <= j < cands@.len() && #[trigger] r@[i] == cands@[j],
        forall|j: int|
            0 <= j < cands@.len() ==> exists|i: int|
                0 <= i < r@.len() && r@[i] == #[trigger] cands@[j],
{
    let n = cands.len();
    let mut used: Vec<bool> = Vec::new();
    let mut w: usize = 0;
    while w < n
        invariant
            0 <= w <= n,
            used@.len() == w,
            forall|j: int| 0 <= j < w ==> !(#[trigger] used@[j]),
        decreases n - w,
    {
        used.push(false);
        w = w + 1;
    }
    proof {
        lemma_count_false_all(used@);
    }
    let mut out: Vec<(Capacity, StepGroup, i64)> = Vec::new();
    let mut it: usize = 0;
    while it < n
        invariant
            0 <= it <= n,
            n == cands@.len() == used@.len(),
            out@.len() == it,
            count_false(used@) == n - it,
            forall|i: int, j: int|
                0 <= i < j < out@.len() ==> (#[trigger] out@[i]).2 >= (#[trigger] out@[j]).2,
            forall|j: int|
                0 <= j < n && !(#[trigger] used@[j]) ==> (out@.len() > 0 ==> cands@[j].2
                    <= out@[out@.len() - 1].2),
            forall|i: int|
                0 <= i < out@.len() ==> exists|j: int|
                    0 <= j < n && used@[j] && #[trigger] out@[i] == cands@[j],
            forall|j: int|
                0 <= j < n && #[trigger] used@[j] ==> exists|i: int|
                    0 <= i < out@.len() && out@[i] == cands@[j],
            forall|i1: int, i2: int|
                0 <= i1 < i2 < out@.len() ==> #[trigger] out@[i1] != #[trigger] out@[i2],
        decreases n - it,
    {
        proof {
            lemma_count_false_pos(used@);
        }
        // find the heaviest unmarked candidate
        let mut mi: usize = 0;
        let mut found = false;
        let mut j: usize = 0;
        while j < n
            invariant
                0 <= j <= n,
                n == cands@.len() == used@.len(),
                found ==> mi < n && !used@[mi as int],
                found ==> forall|jj: int|
                    0 <= jj < j && !(#[trigger] used@[jj]) ==> cands@[jj].2 <= cands@[mi as int].2,
                !found ==> forall|jj: int| 0 <= jj < j ==> #[trigger] used@[jj],
            decreases n - j,
        {
            if !used[j] {
                if !found || cands[j].2 > cands[mi].2 {
                    mi = j;
                }
                found = true;
            }
            j = j + 1;
        }
        proof {
            if !found {
                assert(count_false(used@) > 0);
                lemma_count_false_pos(used@);
                assert(false);
            }
        }
        let ghost old_used = used@;
        let ghost old_out = out@;
        let e = cands[mi];
        used.set(mi, true);
        out.push(e);
        proof {
            lemma_count_false_update(old_used, mi as int);
            lemma_sort_push(cands@, old_used, old_out, mi as int);
            assert(used@ == old_used.update(mi as int, true));
            assert(out@ == old_out.push(cands@[mi as int]));
        }
        it = it + 1;
    }
    proof {
        lemma_count_false_zero(used@);
        assert forall|j: int| 0 <= j < cands@.len() implies exists|i: int|
            0 <= i < out@.len() && out@[i] == #[trigger] cands@[j] by {
            assert(used@[j]);
        }
    }
    out
}

/// Emitting the heaviest unmarked candidate keeps the selection
/// invariants: order, provenance both ways, and the bound on what is
/// left.
#[verifier::rlimit(100)]
proof fn lemma_sort_eg_push(
    cands: Seq<(Capacity, EquipmentGroup, i64)>,
    old_used: Seq<bool>,
    old_out: Seq<(Capacity, EquipmentGroup, i64)>,
    mi: int,
)
    requires
        old_used.len() == cands.len(),
        0 <= mi < cands.len(),
        !old_used[mi],
        forall|jj: int|
            0 <= jj < cands.len() && !(#[trigger] old_used[jj]) ==> cands[jj].2 <= cands[mi].2,
        forall|i: int, j: int|
            0 <= i < j < old_out.len() ==> (#[trigger] old_out[i]).2 >= (#[trigger] old_out[j]).2,
        forall|j: int|
            0 <= j < cands.len() && !(#[trigger] old_used[j]) ==> (old_out.len() > 0
                ==> cands[j].2 <= old_out[old_out.len() - 1].2),
        forall|i: int|
            0 <= i < old_out.len() ==> exists|j: int|
                0 <= j < cands.len() && old_used[j] && #[trigger] old_out[i] == cands[j],
        forall|j: int|
            0 <= j < cands.len() && #[trigger] old_used[j] ==> exists|i: int|
                0 <= i < old_out.len() && old_out[i] == cands[j],
        forall|j1: int, j2: int|
            0 <= j1 < j2 < cands.len() ==> #[trigger] cands[j1] != #[trigger] cands[j2],
        forall|i1: int, i2: int|
            0 <= i1 < i2 < old_out.len() ==> #[trigger] old_out[i1] != #[trigger] old_out[i2],
    ensures
        ({
            let used = old_used.update(mi, true);
            let out = old_out.push(cands[mi]);
            &&& forall|i: int, j: int|
                0 <= i < j < out.len() ==> (#[trigger] out[i]).2 >= (#[trigger] out[j]).2
            &&& forall|j: int|
                0 <= j < cands.len() && !(#[trigger] used[j]) ==> (out.len() > 0 ==> cands[j].2
                    <= out[out.len() - 1].2)
            &&& forall|i: int|
                0 <= i < out.len() ==> exists|j: int|
                    0 <= j < cands.len() && used[j] && #[trigger] out[i] == cands[j]
            &&& forall|j: int|
                0 <= j < cands.len() && #[trigger] used[j] ==> exists|i: int|
                    0 <= i < out.len() && out[i] == cands[j]
            &&& forall|i1: int, i2: int|
                0 <= i1 < i2 < out.len() ==> #[trigger] out[i1] != #[trigger] out[i2]
        }),
{
    let used = old_used.update(mi, true);
    let out = old_out.push(cands[mi]);
    assert(out[out.len() - 1] == cands[mi]);
    assert forall|i: int, j: int|
        0 <= i < j < out.len() implies (#[trigger] out[i]).2 >= (#[trigger] out[j]).2 by {
        if j < out.len() - 1 {
            assert(out[i] == old_out[i] && out[j] == old_out[j]);
        } else {
            if i < out.len() - 1 {
                assert(out[i] == old_out[i]);
            }
        }
    }
    assert forall|i: int| 0 <= i < out.len() implies exists|j: int|
        0 <= j < cands.len() && used[j] && #[trigger] out[i] == cands[j] by {
        if i < old_out.len() {
            let j = choose|j: int|
                0 <= j < cands.len() && old_used[j] && #[trigger] old_out[i] == cands[j];
            assert(used[j] && out[i] == cands[j]);
        } else {
            assert(used[mi] && out[i] == cands[mi]);
        }
    }
    assert forall|j: int| 0 <= j < cands.len() && #[trigger] used[j] implies exists|i: int|
        0 <= i < out.len() && out[i] == cands[j] by {
        if j == mi {
            assert(out[out.len() - 1] == cands[mi]);
        } else {
            assert(old_used[j]);
            let i = choose|i: int| 0 <= i < old_out.len() && #[trigger] old_out[i] == cands[j];
            assert(out[i] == cands[j]);
        }
    }
    assert forall|i1: int, i2: int|
        0 <= i1 < i2 < out.len() implies #[trigger] out[i1] != #[trigger] out[i2] by {
        if i2 == out.len() - 1 {
            let j1 = choose|j1: int|
                0 <= j1 < cands.len() && old_used[j1] && #[trigger] old_out[i1] == cands[j1];
            assert(out[i1] == cands[j1] && out[i2] == cands[mi]);
            assert(j1 != mi);
            if j1 < mi {
                assert(cands[j1] != cands[mi]);
            } else {
                assert(cands[mi] != cands[j1]);
            }
        } else {
            assert(out[i1] == old_out[i1] && out[i2] == old_out[i2]);
        }
    }
}

/// Orders a candidate table by occupancy, heaviest first.  The result
/// holds exactly the candidates, each once, in descending order.
#[verifier::loop_isolation(false)]
#[verifier::rlimit(100)]
fn sort_eg_desc(cands: &Vec<(Capacity, EquipmentGroup, i64)>) -> (r: Vec<(Capacity, EquipmentGroup, i64)>)
    requires
        forall|j1: int, j2: int|
            0 <= j1 < j2 < cands@.len() ==> #[trigger] cands@[j1] != #[trigger] cands@[j2],
    ensures
        r@.len() == cands@.len(),
        forall|i1: int, i2: int|
            0 <= i1 < i2 < r@.len() ==> #[trigger] r@[i1] != #[trigger] r@[i2],
        forall|i: int, j: int| 0 <= i < j < r@.len() ==> (#[trigger] r@[i]).2 >= (#[trigger] r@[j]).2,
        forall|i: int|
            0 <= i < r@.len() ==> exists|j: int|
                0 <= j < cands@.len() && #[trigger] r@[i] == cands@[j],
        forall|j: int|
            0 <= j < cands@.len() ==> exists|i: int|
                0 <= i < r@.len() && r@[i] == #[trigger] cands@[j],
{
    let n = cands.len();
    let mut used: Vec<bool> = Vec::new();
    let mut w: usize = 0;
    while w < n
        invariant
            0 <= w <= n,
            used@.len() == w,
            forall|j: int| 0 <= j < w ==> !(#[trigger] used@[j]),
        decreases n - w,
    {
        used.push(false);
        w = w + 1;
    }
    proof {
        lemma_count_false_all(used@);
    }
    let mut out: Vec<(Capacity, EquipmentGroup, i64)> = Vec::new();
    let mut it: usize = 0;
    while it < n
        invariant
            0 <= it <= n,
            n == cands@.len() == used@.len(),
            out@.len() == it,
            count_false(used@) == n - it,
            forall|i: int, j: int|
                0 <= i < j < out@.len() ==> (#[trigger] out@[i]).2 >= (#[trigger] out@[j]).2,
            forall|j: int|
                0 <= j < n && !(#[trigger] used@[j]) ==> (out@.len() > 0 ==> cands@[j].2
                    <= out@[out@.len() - 1].2),
            forall|i: int|
                0 <= i < out@.len() ==> exists|j: int|
                    0 <= j < n && used@[j] && #[trigger] out@[i] == cands@[j],
            forall|j: int|
                0 <= j < n && #[trigger] used@[j] ==> exists|i: int|
                    0 <= i < out@.len() && out@[i] == cands@[j],
            forall|i1: int, i2: int|
                0 <= i1 < i2 < out@.len() ==> #[trigger] out@[i1] != #[trigger] out@[i2],
        decreases n - it,
    {
        proof {
            lemma_count_false_pos(used@);
        }
        // find the heaviest unmarked candidate
        let mut mi: usize = 0;
        let mut found = false;
        let mut j: usize = 0;
        while j < n
            invariant
                0 <= j <= n,
                n == cands@.len() == used@.len(),
                found ==> mi < n && !used@[mi as int],
                found ==> forall|jj: int|
                    0 <= jj < j && !(#[trigger] used@[jj]) ==> cands@[jj].2 <= cands@[mi as int].2,
                !found ==> forall|jj: int| 0 <= jj < j ==> #[trigger] used@[jj],
            decreases n - j,
        {
            if !used[j] {
                if !found || cands[j].2 > cands[mi].2 {
                    mi = j;
                }
                found = true;
            }
            j = j + 1;
        }
        proof {
            if !found {
                assert(count_false(used@) > 0);
                lemma_count_false_pos(used@);
                assert(false);
            }
        }
        let ghost old_used = used@;
        let ghost old_out = out@;
        let e = cands[mi];
        used.set(mi, true);
        out.push(e);
        proof {
            lemma_count_false_update(old_used, mi as int);
            lemma_sort_eg_push(cands@, old_used, old_out, mi as int);
            assert(used@ == old_used.update(mi as int, true));
            assert(out@ == old_out.push(cands@[mi as int]));
        }
        it = it + 1;
    }
    proof {
        lemma_count_false_zero(used@);
        assert forall|j: int| 0 <= j < cands@.len() implies exists|i: int|
            0 <= i < out@.len() && out@[i] == #[trigger] cands@[j] by {
            assert(used@[j]);
        }
    }
    out
}

/// A freshly unmarked list has a full false count.
proof fn lemma_count_false_all(s: Seq<bool>)
    requires
        forall|j: int| 0 <= j < s.len() ==> !(#[trigger] s[j]),
    ensures
        count_false(s) == s.len(),
    decreases s.len(),
{
    if s.len() > 0 {
        assert(forall|j: int| 0 <= j < s.drop_last().len() ==> !(#[trigger] s.drop_last()[j]));
        lemma_count_false_all(s.drop_last());
    }
}

/// Total seconds per (capacity, equipment group) that a per-step table
/// folds into: the step groups are mapped to the vessels they occupy.
pub open spec fn eg_total(
    acc: Seq<(Capacity, StepGroup, i64)>,
    c: Capacity,
    eg: EquipmentGroup,
) -> int
    decreases acc.len(),
{
    if acc.len() == 0 {
        0
    } else {
        eg_total(acc.drop_last(), c, eg) + if acc.last().0 == c
            && acc.last().1.spec_equipment_group() == eg {
            acc.last().2 as int
        } else {
            0
        }
    }
}

/// Whether the per-step table touches the (capacity, equipment group).
pub open spec fn eg_occurs(
    acc: Seq<(Capacity, StepGroup, i64)>,
    c: Capacity,
    eg: EquipmentGroup,
) -> bool {
    exists|i: int|
        0 <= i < acc.len() && (#[trigger] acc[i]).0 == c && acc[i].1.spec_equipment_group() == eg
}

/// How many registered vessels serve the capacity and group.
pub open spec fn count_suits(eqs: Seq<Equipment>, c: Capacity, eg: EquipmentGroup) -> int
    decreases eqs.len(),
{
    if eqs.len() == 0 {
        0
    } else {
        count_suits(eqs.drop_last(), c, eg) + if suits(eqs.last(), c, eg) {
            1int
        } else {
            0
        }
    }
}

impl Factory {
    /// Ranks the (capacity, step) pairs by total occupancy over the
    /// batches, heaviest first: the exact total of every occurring pair,
    /// each pair once, in descending order.
    #[verifier::loop_isolation(false)]
    #[verifier::rlimit(100)]
    pub fn calculate_bottleneck_step(&self, batches_needed: &Vec<BatchNeed>) -> (r: Vec<
        (Capacity, StepGroup, i64),
    >)
        requires
            self.wf(),
            forall|k: int|
                0 <= k < batches_needed@.len() ==> batch_ok(*self, #[trigger] batches_needed@[k]),
            batches_needed@.len() <= 20_000,
        ensures
            step_table_ok(*self, batches_needed@, r@),
            forall|i: int|
                0 <= i < r@.len() ==> 0 <= (#[trigger] r@[i]).2 <= 100_000_000_000_000 && !(
                r@[i].0 is UNKNOWN),
    {
        let caps = Capacity::all();
        let groups = StepGroup::all();
        let mut cands: Vec<(Capacity, StepGroup, i64)> = Vec::new();
        let mut a: usize = 0;
        while a < caps.len()
            invariant
                0 <= a <= caps@.len(),
                caps@ =~= seq![
                    Capacity::G5,
                    Capacity::G10,
                    Capacity::G14,
                    Capacity::G15,
                    Capacity::BBL5,
                    Capacity::BBL7,
                    Capacity::BBL10,
                    Capacity::BBL15,
                ],
                groups@ =~= seq![
                    StepGroup::Brewing,
                    StepGroup::PrimaryFermentation,
                    StepGroup::DiacetylRest,
                    StepGroup::SecondaryFermentation,
                    StepGroup::Aging,
                    StepGroup::Carbonation,
                ],
                forall|i: int|
                    0 <= i < cands@.len() ==> step_occurs(
                        *self,
                        batches_needed@,
                        (#[trigger] cands@[i]).0,
                        cands@[i].1,
                    ) && cands@[i].2 == step_total(
                        *self,
                        batches_needed@,
                        cands@[i].0,
                        cands@[i].1,
                    ) && 0 <= cands@[i].2 <= 100_000_000_000_000,
                forall|i1: int, i2: int|
                    0 <= i1 < i2 < cands@.len() ==> ((#[trigger] cands@[i1]).0, cands@[i1].1) != (
                    (#[trigger] cands@[i2]).0, cands@[i2].1),
                forall|c: Capacity, g: StepGroup|
                    #[trigger] step_occurs(*self, batches_needed@, c, g) && c.rank_spec() < a
                        ==> exists|i: int|
                        0 <= i < cands@.len() && ((#[trigger] cands@[i]).0, cands@[i].1) == (c, g),
                forall|i: int| 0 <= i < cands@.len() ==> (#[trigger] cands@[i]).0.rank_spec() < a,
            decreases caps@.len() - a,
        {
            let c = caps[a];
            let mut bb: usize = 0;
            while bb < groups.len()
                invariant
                    0 <= bb <= groups@.len(),
                    a < caps@.len(),
                    c == caps@[a as int],
                    forall|i: int|
                        0 <= i < cands@.len() ==> step_occurs(
                            *self,
                            batches_needed@,
                            (#[trigger] cands@[i]).0,
                            cands@[i].1,
                        ) && cands@[i].2 == step_total(
                            *self,
                            batches_needed@,
                            cands@[i].0,
                            cands@[i].1,
                        ) && 0 <= cands@[i].2 <= 100_000_000_000_000,
                    forall|i1: int, i2: int|
                        0 <= i1 < i2 < cands@.len() ==> ((#[trigger] cands@[i1]).0, cands@[i1].1)
                            != ((#[trigger] cands@[i2]).0, cands@[i2].1),
                    forall|cc: Capacity, g: StepGroup|
                        #[trigger] step_occurs(*self, batches_needed@, cc, g) && (cc.rank_spec()
                            < a || (cc == c && g.rank_spec() < bb)) ==> exists|i: int|
                            0 <= i < cands@.len() && ((#[trigger] cands@[i]).0, cands@[i].1) == (
                            cc,
                            g,
                            ),
                    forall|i: int|
                        0 <= i < cands@.len() ==> ((#[trigger] cands@[i]).0.rank_spec() < a || (
                        cands@[i].0 == c && cands@[i].1.rank_spec() < bb)),
                decreases groups@.len() - bb,
            {
                let g = groups[bb];
                let ghost old_cands = cands@;
                if self.step_occurs_exec(batches_needed, &c, &g) {
                    let tot = self.step_total_exec(batches_needed, &c, &g);
                    cands.push((c, g, tot));
                }
                proof {
                    assert forall|cc: Capacity, gg: StepGroup|
                        #[trigger] step_occurs(*self, batches_needed@, cc, gg) && (cc.rank_spec()
                            < a || (cc == c && gg.rank_spec() < bb + 1)) implies exists|i: int|
                        0 <= i < cands@.len() && ((#[trigger] cands@[i]).0, cands@[i].1) == (
                        cc,
                        gg,
                        ) by {
                        if cc == c && gg == g {
                            assert(((cands@[cands@.len() - 1]).0, cands@[cands@.len() - 1].1) == (
                            cc,
                            gg,
                            ));
                        } else {
                            let i = choose|i: int|
                                0 <= i < old_cands.len() && ((#[trigger] old_cands[i]).0,
                                old_cands[i].1) == (cc, gg);
                            assert(((cands@[i]).0, cands@[i].1) == (cc, gg));
                        }
                    }
                }
                bb = bb + 1;
            }
            a = a + 1;
        }
        proof {
            assert forall|c: Capacity, g: StepGroup|
                #[trigger] step_occurs(*self, batches_needed@, c, g) implies exists|i: int|
                0 <= i < cands@.len() && ((#[trigger] cands@[i]).0, cands@[i].1) == (c, g) by {
                let k = choose|k: int|
                    0 <= k < batches_needed@.len() && (#[trigger] batches_needed@[k]).system == c
                        && steps_has(spec_batch_steps(*self, batches_needed@[k]), g);
                assert(batch_ok(*self, batches_needed@[k]));
                assert(c.rank_spec() < 8);
            }
            assert forall|j1: int, j2: int|
                0 <= j1 < j2 < cands@.len() implies #[trigger] cands@[j1]
                != #[trigger] cands@[j2] by {
                assert((cands@[j1].0, cands@[j1].1) != (cands@[j2].0, cands@[j2].1));
            }
        }
        let out = sort_step_desc(&cands);
        proof {
            assert forall|i: int| 0 <= i < out@.len() implies step_occurs(
                *self,
                batches_needed@,
                (#[trigger] out@[i]).0,
                out@[i].1,
            ) && out@[i].2 == step_total(*self, batches_needed@, out@[i].0, out@[i].1) && 0
                <= out@[i].2 <= 100_000_000_000_000 by {
                let j = choose|j: int| 0 <= j < cands@.len() && #[trigger] out@[i] == cands@[j];
                assert(out@[i] == cands@[j]);
            }
            assert forall|i1: int, i2: int| 0 <= i1 < i2 < out@.len() implies ((
            #[trigger] out@[i1]).0, out@[i1].1) != ((#[trigger] out@[i2]).0, out@[i2].1) by {
                let j1 = choose|j: int| 0 <= j < cands@.len() && #[trigger] out@[i1] == cands@[j];
                let j2 = choose|j: int| 0 <= j < cands@.len() && #[trigger] out@[i2] == cands@[j];
                assert(out@[i1] != out@[i2]);
                if j1 != j2 {
                    if j1 < j2 {
                        assert((cands@[j1].0, cands@[j1].1) != (cands@[j2].0, cands@[j2].1));
                    } else {
                        assert((cands@[j2].0, cands@[j2].1) != (cands@[j1].0, cands@[j1].1));
                    }
                }
            }
            assert forall|c: Capacity, g: StepGroup|
                #[trigger] step_occurs(*self, batches_needed@, c, g) implies exists|i: int|
                0 <= i < out@.len() && ((#[trigger] out@[i]).0, out@[i].1) == (c, g) by {
                let j = choose|j: int|
                    0 <= j < cands@.len() && ((#[trigger] cands@[j]).0, cands@[j].1) == (c, g);
                let i = choose|i: int| 0 <= i < out@.len() && out@[i] == #[trigger] cands@[j];
                assert(((out@[i]).0, out@[i].1) == (c, g));
            }
            assert forall|i: int| 0 <= i < out@.len() implies !((#[trigger] out@[i]).0
                is UNKNOWN) by {
                assert(step_occurs(*self, batches_needed@, out@[i].0, out@[i].1));
                let k = choose|k: int|
                    0 <= k < batches_needed@.len() && (#[trigger] batches_needed@[k]).system
                        == out@[i].0 && steps_has(
                        spec_batch_steps(*self, batches_needed@[k]),
                        out@[i].1,
                    );
                assert(batch_ok(*self, batches_needed@[k]));
            }
        }
        out
    }
}

/// What the folded per-vessel-group table says, relative to its input.
pub open spec fn eg_table_ok(
    acc: Seq<(Capacity, StepGroup, i64)>,
    r: Seq<(Capacity, EquipmentGroup, i64)>,
) -> bool {
    &&& forall|i: int, j: int| 0 <= i < j < r.len() ==> (#[trigger] r[i]).2 >= (#[trigger] r[j]).2
    &&& forall|i: int, j: int|
        0 <= i < j < r.len() ==> ((#[trigger] r[i]).0, r[i].1) != ((#[trigger] r[j]).0, r[j].1)
    &&& forall|i: int|
        0 <= i < r.len() ==> eg_occurs(acc, (#[trigger] r[i]).0, r[i].1) && r[i].2 == eg_total(
            acc,
            r[i].0,
            r[i].1,
        )
    &&& forall|c: Capacity, g: EquipmentGroup|
        #[trigger] eg_occurs(acc, c, g) ==> exists|i: int|
            0 <= i < r.len() && ((#[trigger] r[i]).0, r[i].1) == (c, g)
}

/// Folded seconds of one (capacity, vessel group) in a per-step table,
/// computed executably.
#[verifier::loop_isolation(false)]
fn eg_total_exec(acc: &Vec<(Capacity, StepGroup, i64)>, c: &Capacity, g: &EquipmentGroup) -> (r:
    i64)
    requires
        forall|i: int|
            0 <= i < acc@.len() ==> 0 <= (#[trigger] acc@[i]).2 <= 100_000_000_000_000,
        acc@.len() <= 64,
    ensures
        r == eg_total(acc@, *c, *g),
        0 <= r <= 6_400_000_000_000_000,
{
    let mut out: i64 = 0;
    let mut i: usize = 0;
    while i < acc.len()
        invariant
            0 <= i <= acc@.len(),
            out == eg_total(acc@.take(i as int), *c, *g),
            0 <= out <= i * 100_000_000_000_000,
        decreases acc@.len() - i,
    {
        proof {
            assert(acc@.take(i as int + 1).drop_last() =~= acc@.take(i as int));
            assert(acc@.take(i as int + 1).last() == acc@[i as int]);
        }
        let (ec, eg2, v) = acc[i];
        if ec == *c && eg2.equipment_group() == *g {
            out = out + v;
        }
        i = i + 1;
    }
    proof {
        assert(acc@.take(acc@.len() as int) =~= acc@);
    }
    out
}

/// Whether a per-step table touches the pair, computed executably.
#[verifier::loop_isolation(false)]
fn eg_occurs_exec(acc: &Vec<(Capacity, StepGroup, i64)>, c: &Capacity, g: &EquipmentGroup) -> (r:
    bool)
    ensures
        r == eg_occurs(acc@, *c, *g),
{
    let mut i: usize = 0;
    while i < acc.len()
        invariant
            0 <= i <= acc@.len(),
            forall|ii: int|
                0 <= ii < i ==> !((#[trigger] acc@[ii]).0 == *c
                    && acc@[ii].1.spec_equipment_group() == *g),
        decreases acc@.len() - i,
    {
        let (ec, eg2, _v) = acc[i];
        if ec == *c && eg2.equipment_group() == *g {
            return true;
        }
        i = i + 1;
    }
    false
}

/// What the per-unit load table says, relative to its input and the
/// registry: same keys, each value the input total divided by the
/// number of vessels serving the key, in descending order.
/// The i-th output entry divides some input entry by its vessel count.
pub open spec fn per_unit_entry_ok(
    eqs: Seq<Equipment>,
    acc: Seq<(Capacity, EquipmentGroup, i64)>,
    r: Seq<(Capacity, EquipmentGroup, i64)>,
    i: int,
) -> bool {
    exists|j: int|
        0 <= j < acc.len() && ((r[i]).0, r[i].1) == (((#[trigger] acc[j]).0), acc[j].1) && r[i].2
            == acc[j].2 / count_suits(eqs, acc[j].0, acc[j].1) as i64
}

/// The j-th input key reappears in the output.
pub open spec fn per_unit_key_kept(
    acc: Seq<(Capacity, EquipmentGroup, i64)>,
    r: Seq<(Capacity, EquipmentGroup, i64)>,
    j: int,
) -> bool {
    exists|i: int|
        0 <= i < r.len() && ((acc[j]).0, acc[j].1) == (((#[trigger] r[i]).0), r[i].1)
}

pub open spec fn per_unit_table_ok(
    eqs: Seq<Equipment>,
    acc: Seq<(Capacity, EquipmentGroup, i64)>,
    r: Seq<(Capacity, EquipmentGroup, i64)>,
) -> bool {
    &&& r.len() == acc.len()
    &&& forall|i: int, j: int| 0 <= i < j < r.len() ==> (#[trigger] r[i]).2 >= (#[trigger] r[j]).2
    &&& forall|i: int| 0 <= i < r.len() ==> #[trigger] per_unit_entry_ok(eqs, acc, r, i)
    &&& forall|j: int| 0 <= j < acc.len() ==> #[trigger] per_unit_key_kept(acc, r, j)
}

impl Factory {
    /// Folds a per-step bottleneck table into the vessel groups the
    /// steps occupy, heaviest first: the exact folded total of every
    /// touched (capacity, vessel group), each once, in descending order.
    #[verifier::loop_isolation(false)]
    #[verifier::rlimit(100)]
    pub fn calculate_bottleneck_equipment(&self, acc_batches: &Vec<(Capacity, StepGroup, i64)>)
        -> (r: Vec<(Capacity, EquipmentGroup, i64)>)
        requires
            forall|i: int|
                0 <= i < acc_batches@.len() ==> 0 <= (#[trigger] acc_batches@[i]).2
                    <= 100_000_000_000_000 && !(acc_batches@[i].0 is UNKNOWN),
            acc_batches@.len() <= 64,
        ensures
            eg_table_ok(acc_batches@, r@),
    {
        let caps = Capacity::all();
        let groups = EquipmentGroup::all();
        let mut cands: Vec<(Capacity, EquipmentGroup, i64)> = Vec::new();
        let mut a: usize = 0;
        while a < caps.len()
            invariant
                0 <= a <= caps@.len(),
                caps@ =~= seq![
                    Capacity::G5,
                    Capacity::G10,
                    Capacity::G14,
                    Capacity::G15,
                    Capacity::BBL5,
                    Capacity::BBL7,
                    Capacity::BBL10,
                    Capacity::BBL15,
                ],
                groups@ =~= seq![
                    EquipmentGroup::MashTun,
                    EquipmentGroup::LauterTun,
                    EquipmentGroup::HotLiquorTank,
                    EquipmentGroup::Kettle,
                    EquipmentGroup::Fermentor,
                    EquipmentGroup::CO2Tank,
                    EquipmentGroup::Keg,
                ],
                forall|i: int|
                    0 <= i < cands@.len() ==> eg_occurs(
                        acc_batches@,
                        (#[trigger] cands@[i]).0,
                        cands@[i].1,
                    ) && cands@[i].2 == eg_total(acc_batches@, cands@[i].0, cands@[i].1),
                forall|i1: int, i2: int|
                    0 <= i1 < i2 < cands@.len() ==> ((#[trigger] cands@[i1]).0, cands@[i1].1) != (
                    (#[trigger] cands@[i2]).0, cands@[i2].1),
                forall|c: Capacity, g: EquipmentGroup|
                    #[trigger] eg_occurs(acc_batches@, c, g) && c.rank_spec() < a ==> exists|
                        i: int,
                    |
                        0 <= i < cands@.len() && ((#[trigger] cands@[i]).0, cands@[i].1) == (c, g),
                forall|i: int| 0 <= i < cands@.len() ==> (#[trigger] cands@[i]).0.rank_spec() < a,
            decreases caps@.len() - a,
        {
            let c = caps[a];
            let mut bb: usize = 0;
            while bb < groups.len()
                invariant
                    0 <= bb <= groups@.len(),
                    a < caps@.len(),
                    c == caps@[a as int],
                    forall|i: int|
                        0 <= i < cands@.len() ==> eg_occurs(
                            acc_batches@,
                            (#[trigger] cands@[i]).0,
                            cands@[i].1,
                        ) && cands@[i].2 == eg_total(acc_batches@, cands@[i].0, cands@[i].1),
                    forall|i1: int, i2: int|
                        0 <= i1 < i2 < cands@.len() ==> ((#[trigger] cands@[i1]).0, cands@[i1].1)
                            != ((#[trigger] cands@[i2]).0, cands@[i2].1),
                    forall|cc: Capacity, g: EquipmentGroup|
                        #[trigger] eg_occurs(acc_batches@, cc, g) && (cc.rank_spec() < a || (cc
                            == c && g.rank_spec() < bb)) ==> exists|i: int|
                            0 <= i < cands@.len() && ((#[trigger] cands@[i]).0, cands@[i].1) == (
                            cc,
                            g,
                            ),
                    forall|i: int|
                        0 <= i < cands@.len() ==> ((#[trigger] cands@[i]).0.rank_spec() < a || (
                        cands@[i].0 == c && cands@[i].1.rank_spec() < bb)),
                decreases groups@.len() - bb,
            {
                let g = groups[bb];
                let ghost old_cands = cands@;
                if eg_occurs_exec(acc_batches, &c, &g) {
                    let tot = eg_total_exec(acc_batches, &c, &g);
                    cands.push((c, g, tot));
                }
                proof {
                    assert forall|cc: Capacity, gg: EquipmentGroup|
                        #[trigger] eg_occurs(acc_batches@, cc, gg) && (cc.rank_spec() < a || (cc
                            == c && gg.rank_spec() < bb + 1)) implies exists|i: int|
                        0 <= i < cands@.len() && ((#[trigger] cands@[i]).0, cands@[i].1) == (
                        cc,
                        gg,
                        ) by {
                        if cc == c && gg == g {
                            assert(((cands@[cands@.len() - 1]).0, cands@[cands@.len() - 1].1) == (
                            cc,
                            gg,
                            ));
                        } else {
                            let i = choose|i: int|
                                0 <= i < old_cands.len() && ((#[trigger] old_cands[i]).0,
                                old_cands[i].1) == (cc, gg);
                            assert(((cands@[i]).0, cands@[i].1) == (cc, gg));
                        }
                    }
                }
                bb = bb + 1;
            }
            a = a + 1;
        }
        proof {
            assert forall|c: Capacity, g: EquipmentGroup|
                #[trigger] eg_occurs(acc_batches@, c, g) implies exists|i: int|
                0 <= i < cands@.len() && ((#[trigger] cands@[i]).0, cands@[i].1) == (c, g) by {
                let t = choose|t: int|
                    0 <= t < acc_batches@.len() && (#[trigger] acc_batches@[t]).0 == c
                        && acc_batches@[t].1.spec_equipment_group() == g;
                assert(!(c is UNKNOWN));
                assert(c.rank_spec() < 8);
            }
            assert forall|j1: int, j2: int|
                0 <= j1 < j2 < cands@.len() implies #[trigger] cands@[j1]
                != #[trigger] cands@[j2] by {
                assert((cands@[j1].0, cands@[j1].1) != (cands@[j2].0, cands@[j2].1));
            }
        }
        let out = sort_eg_desc(&cands);
        proof {
            assert forall|i: int| 0 <= i < out@.len() implies eg_occurs(
                acc_batches@,
                (#[trigger] out@[i]).0,
                out@[i].1,
            ) && out@[i].2 == eg_total(acc_batches@, out@[i].0, out@[i].1) by {
                let j = choose|j: int| 0 <= j < cands@.len() && #[trigger] out@[i] == cands@[j];
                assert(out@[i] == cands@[j]);
            }
            assert forall|i1: int, i2: int| 0 <= i1 < i2 < out@.len() implies ((
            #[trigger] out@[i1]).0, out@[i1].1) != ((#[trigger] out@[i2]).0, out@[i2].1) by {
                let j1 = choose|j: int| 0 <= j < cands@.len() && #[trigger] out@[i1] == cands@[j];
                let j2 = choose|j: int| 0 <= j < cands@.len() && #[trigger] out@[i2] == cands@[j];
                assert(out@[i1] != out@[i2]);
                if j1 != j2 {
                    if j1 < j2 {
                        assert((cands@[j1].0, cands@[j1].1) != (cands@[j2].0, cands@[j2].1));
                    } else {
                        assert((cands@[j2].0, cands@[j2].1) != (cands@[j1].0, cands@[j1].1));
                    }
                }
            }
            assert forall|c: Capacity, g: EquipmentGroup|
                #[trigger] eg_occurs(acc_batches@, c, g) implies exists|i: int|
                0 <= i < out@.len() && ((#[trigger] out@[i]).0, out@[i].1) == (c, g) by {
                let j = choose|j: int|
                    0 <= j < cands@.len() && ((#[trigger] cands@[j]).0, cands@[j].1) == (c, g);
                let i = choose|i: int| 0 <= i < out@.len() && out@[i] == #[trigger] cands@[j];
                assert(((out@[i]).0, out@[i].1) == (c, g));
            }
        }
        out
    }

    /// Divides each (capacity, vessel group) total by the number of
    /// vessels serving it — the load per unit — and ranks the result,
    /// heaviest first.  Every queried pair must have at least one vessel.
    #[verifier::loop_isolation(false)]
    #[verifier::rlimit(100)]
    pub fn calculate_bottleneck(&self, acc_equipment: &Vec<(Capacity, EquipmentGroup, i64)>) -> (r:
        Vec<(Capacity, EquipmentGroup, i64)>)
        requires
            forall|i: int|
                0 <= i < acc_equipment@.len() ==> 0 <= (#[trigger] acc_equipment@[i]).2
                    <= 6_400_000_000_000_000,
            forall|i1: int, i2: int|
                0 <= i1 < i2 < acc_equipment@.len() ==> ((#[trigger] acc_equipment@[i1]).0,
                acc_equipment@[i1].1) != ((#[trigger] acc_equipment@[i2]).0,
                acc_equipment@[i2].1),
            forall|i: int|
                0 <= i < acc_equipment@.len() ==> count_suits(
                    self.equipments@,
                    (#[trigger] acc_equipment@[i]).0,
                    acc_equipment@[i].1,
                ) > 0,
            self.equipments@.len() <= 1_000_000_000,
        ensures
            per_unit_table_ok(self.equipments@, acc_equipment@, r@),
    {
        let mut cands: Vec<(Capacity, EquipmentGroup, i64)> = Vec::new();
        let mut i: usize = 0;
        while i < acc_equipment.len()
            invariant
                0 <= i <= acc_equipment@.len(),
                cands@.len() == i,
                forall|ii: int|
                    0 <= ii < i ==> ((#[trigger] cands@[ii]).0, cands@[ii].1) == ((
                    #[trigger] acc_equipment@[ii]).0, acc_equipment@[ii].1) && cands@[ii].2
                        == acc_equipment@[ii].2 / count_suits(
                        self.equipments@,
                        acc_equipment@[ii].0,
                        acc_equipment@[ii].1,
                    ) as i64,
            decreases acc_equipment@.len() - i,
        {
            let (c, g, v) = acc_equipment[i];
            let cnt = self.count_suits_exec(&c, &g);
            let per = v / (cnt as i64);
            cands.push((c, g, per));
            i = i + 1;
        }
        proof {
            assert forall|j1: int, j2: int|
                0 <= j1 < j2 < cands@.len() implies #[trigger] cands@[j1]
                != #[trigger] cands@[j2] by {
                assert((acc_equipment@[j1].0, acc_equipment@[j1].1) != (acc_equipment@[j2].0,
                acc_equipment@[j2].1));
            }
        }
        let out = sort_eg_desc(&cands);
        proof {
            assert forall|i2: int| 0 <= i2 < out@.len() implies #[trigger] per_unit_entry_ok(
                self.equipments@,
                acc_equipment@,
                out@,
                i2,
            ) by {
                let j = choose|j: int| 0 <= j < cands@.len() && #[trigger] out@[i2] == cands@[j];
                assert(out@[i2] == cands@[j]);
                assert(((acc_equipment@[j]).0, acc_equipment@[j].1) == (out@[i2].0, out@[i2].1));
            }
            assert forall|j: int| 0 <= j < acc_equipment@.len() implies #[trigger] per_unit_key_kept(
                acc_equipment@,
                out@,
                j,
            ) by {
                let i2 = choose|i2: int| 0 <= i2 < out@.len() && out@[i2] == #[trigger] cands@[j];
                assert(((acc_equipment@[j]).0, acc_equipment@[j].1) == (out@[i2].0, out@[i2].1));
            }
        }
        out
    }

    /// Counts the vessels serving the capacity and group.
    #[verifier::loop_isolation(false)]
    fn count_suits_exec(&self, c: &Capacity, g: &EquipmentGroup) -> (r: usize)
        requires
            count_suits(self.equipments@, *c, *g) > 0,
        ensures
            r == count_suits(self.equipments@, *c, *g),
            r > 0,
            r <= self.equipments@.len(),
    {
        let mut cnt: usize = 0;
        let mut k: usize = 0;
        while k < self.equipments.len()
            invariant
                0 <= k <= self.equipments@.len(),
                cnt == count_suits(self.equipments@.take(k as int), *c, *g),
                cnt <= k,
            decreases self.equipments@.len() - k,
        {
            proof {
                assert(self.equipments@.take(k as int + 1).drop_last() =~= self.equipments@.take(
                    k as int,
                ));
                assert(self.equipments@.take(k as int + 1).last() == self.equipments@[k as int]);
            }
            let e = &self.equipments[k];
            if e.capacity == *c && e.equipment_group == *g {
                cnt = cnt + 1;
            }
            k = k + 1;
        }
        proof {
            assert(self.equipments@.take(self.equipments@.len() as int) =~= self.equipments@);
        }
        cnt
    }
}

} // verus!
