use crate::batchneed::BatchNeed;
use crate::beer::Beer;
use crate::capacity::Capacity;
use crate::error::PlanError;
use crate::factory::Factory;
use crate::recipe::{spec_find, RecipeEntry};
use crate::volume::{Volume, MAX_AMOUNT};
use vstd::arithmetic::div_mod::{
    lemma_div_is_ordered, lemma_div_pos_is_pos, lemma_fundamental_div_mod_converse,
};
use vstd::arithmetic::mul::{
    lemma_mul_inequality, lemma_mul_is_commutative, lemma_mul_is_distributive_add,
};
use vstd::prelude::*;

verus! {

/// Whether the factory owns equipment of the given capacity bucket.
pub open spec fn has_capacity(f: Factory, c: Capacity) -> bool {
    exists|j: int| 0 <= j < f.equipments@.len() && (#[trigger] f.equipments@[j]).capacity == c
}

/// The first registered beer with the given name.
pub open spec fn spec_find_beer(s: Seq<Beer>, n: Seq<char>) -> Option<Beer>
    decreases s.len(),
{
    if s.len() == 0 {
        None
    } else if s[0].name@ == n {
        Some(s[0])
    } else {
        spec_find_beer(s.drop_first(), n)
    }
}

/// The recipe entries a factory can brew: those whose capacity bucket has
/// at least one piece of equipment, in recipe order.
pub open spec fn spec_admissible(f: Factory, entries: Seq<RecipeEntry>) -> Seq<RecipeEntry>
    decreases entries.len(),
{
    if entries.len() == 0 {
        Seq::empty()
    } else {
        let rest = spec_admissible(f, entries.drop_last());
        if has_capacity(f, entries.last().0) {
            rest.push(entries.last())
        } else {
            rest
        }
    }
}

/// The yield of a recipe entry in whole litres (rounded to nearest).
pub open spec fn entry_yield_l(e: RecipeEntry) -> int {
    e.1.liters_rounded_spec()
}

/// The largest whole-litre yield among the entries; zero when none.
pub open spec fn max_yield_l(s: Seq<RecipeEntry>) -> int
    decreases s.len(),
{
    if s.len() == 0 {
        0
    } else {
        let rest = max_yield_l(s.drop_last());
        if entry_yield_l(s.last()) > rest {
            entry_yield_l(s.last())
        } else {
            rest
        }
    }
}

/// Sum of a count sequence.
pub open spec fn seq_sum(c: Seq<int>) -> int
    decreases c.len(),
{
    if c.len() == 0 {
        0
    } else {
        seq_sum(c.drop_last()) + c.last()
    }
}

/// Total litres that `c[j]` batches of each entry `s[j]` yield.
pub open spec fn dot_yield(c: Seq<int>, s: Seq<RecipeEntry>) -> int
    decreases c.len(),
{
    if c.len() == 0 || s.len() == 0 {
        0
    } else {
        dot_yield(c.drop_last(), s.drop_last()) + c.last() * entry_yield_l(s.last())
    }
}

/// The fewest batches that can cover `want` litres when no admissible
/// yield exceeds `maxy` litres: none for no demand, else the ceiling of
/// their quotient.
pub open spec fn spec_min_count(want: int, maxy: int) -> int {
    if want <= 0 {
        0
    } else {
        (want + maxy - 1) / maxy
    }
}

/// Every element the admissibility filter keeps comes from the entries
/// and has equipment for its capacity.
pub proof fn lemma_admissible_sub(f: Factory, entries: Seq<RecipeEntry>)
    ensures
        forall|k: int|
            0 <= k < spec_admissible(f, entries).len() ==> entries.contains(
                #[trigger] spec_admissible(f, entries)[k],
            ) && has_capacity(f, spec_admissible(f, entries)[k].0),
    decreases entries.len(),
{
    if entries.len() > 0 {
        lemma_admissible_sub(f, entries.drop_last());
        let adm = spec_admissible(f, entries);
        assert forall|k: int| 0 <= k < adm.len() implies entries.contains(#[trigger] adm[k])
            && has_capacity(f, adm[k].0) by {
            let rest = spec_admissible(f, entries.drop_last());
            if k < rest.len() {
                assert(entries.drop_last().contains(rest[k]));
                let j = choose|j: int|
                    0 <= j < entries.drop_last().len() && entries.drop_last()[j] == rest[k];
                assert(entries[j] == rest[k]);
            } else {
                assert(adm[k] == entries.last());
                assert(entries[entries.len() - 1] == entries.last());
            }
        }
    }
}

/// In a well-formed entry list, finding the capacity of a member entry
/// gives that entry.
pub proof fn lemma_get_of_member(entries: Seq<RecipeEntry>, t: int)
    requires
        0 <= t < entries.len(),
        forall|i: int, j: int|
            0 <= i < j < entries.len() ==> (#[trigger] entries[i]).0 != (#[trigger] entries[j]).0,
    ensures
        spec_find(entries, entries[t].0) == Some((entries[t].1, entries[t].2)),
    decreases t,
{
    if t == 0 {
    } else {
        assert(entries[0].0 != entries[t].0);
        assert(entries.drop_first()[t - 1] == entries[t]);
        assert forall|i: int, j: int|
            0 <= i < j < entries.drop_first().len() implies (
        #[trigger] entries.drop_first()[i]).0 != (#[trigger] entries.drop_first()[j]).0 by {
            assert(entries.drop_first()[i] == entries[i + 1]);
            assert(entries.drop_first()[j] == entries[j + 1]);
        }
        lemma_get_of_member(entries.drop_first(), t - 1);
    }
}

/// Each batch contributes at most the largest admissible yield.
proof fn lemma_dot_le(c: Seq<int>, s: Seq<RecipeEntry>)
    requires
        c.len() == s.len(),
        forall|j: int| 0 <= j < c.len() ==> 0 <= #[trigger] c[j],
        forall|j: int| 0 <= j < s.len() ==> 0 <= entry_yield_l(#[trigger] s[j]),
    ensures
        dot_yield(c, s) <= seq_sum(c) * max_yield_l(s),
        0 <= seq_sum(c),
    decreases c.len(),
{
    if c.len() > 0 {
        let cd = c.drop_last();
        let sd = s.drop_last();
        assert(forall|j: int| 0 <= j < cd.len() ==> 0 <= #[trigger] cd[j]);
        assert(forall|j: int| 0 <= j < sd.len() ==> 0 <= entry_yield_l(#[trigger] sd[j]));
        lemma_dot_le(cd, sd);
        let m = max_yield_l(s);
        let md = max_yield_l(sd);
        assert(md <= m);
        assert(entry_yield_l(s.last()) <= m);
        lemma_mul_inequality(md, m, seq_sum(cd));
        assert(seq_sum(cd) * md <= seq_sum(cd) * m) by {
            lemma_mul_inequality(md, m, seq_sum(cd));
            lemma_mul_is_commutative(md, seq_sum(cd));
            lemma_mul_is_commutative(m, seq_sum(cd));
        }
        assert(c.last() * entry_yield_l(s.last()) <= c.last() * m) by {
            lemma_mul_inequality(entry_yield_l(s.last()), m, c.last());
            lemma_mul_is_commutative(entry_yield_l(s.last()), c.last());
            lemma_mul_is_commutative(m, c.last());
        }
        assert((seq_sum(cd) + c.last()) * m == seq_sum(cd) * m + c.last() * m) by {
            lemma_mul_is_distributive_add(m, seq_sum(cd), c.last());
            lemma_mul_is_commutative(m, seq_sum(cd) + c.last());
            lemma_mul_is_commutative(m, seq_sum(cd));
            lemma_mul_is_commutative(m, c.last());
        }
    }
}

/// Minimum-cardinality law of the sizer: any whole-batch assignment over
/// the admissible entries that covers the demand uses at least
/// `spec_min_count(want, max_yield_l(s))` batches.
pub proof fn lemma_sizer_minimal(c: Seq<int>, s: Seq<RecipeEntry>, want: int)
    requires
        c.len() == s.len(),
        forall|j: int| 0 <= j < c.len() ==> 0 <= #[trigger] c[j],
        forall|j: int| 0 <= j < s.len() ==> 0 <= entry_yield_l(#[trigger] s[j]),
        dot_yield(c, s) >= want,
        max_yield_l(s) > 0,
    ensures
        seq_sum(c) >= spec_min_count(want, max_yield_l(s)),
{
    lemma_dot_le(c, s);
    if want > 0 {
        let m = max_yield_l(s);
        let n = seq_sum(c);
        assert(want <= n * m);
        // ceil(want / m) <= n  because  want + m - 1 <= n * m + m - 1
        lemma_div_is_ordered(want + m - 1, n * m + m - 1, m);
        assert((n * m + (m - 1)) / m == n) by {
            lemma_fundamental_div_mod_converse(n * m + (m - 1), m, n, m - 1);
            lemma_mul_is_commutative(n, m);
        }
    }
}

/// The count sequence as mathematical integers.
pub open spec fn counts_int(c: Seq<i64>) -> Seq<int> {
    c.map_values(|x: i64| x as int)
}

/// The whole-litre yield the recipe gives the batch's system, or zero.
pub open spec fn batch_yield_l(f: Factory, b: BatchNeed) -> int {
    match spec_find_beer(f.beers@, b.beer_name@) {
        None => 0,
        Some(beer) => match beer.recipe.spec_get(b.system) {
            None => 0,
            Some(ys) => ys.0.liters_rounded_spec(),
        },
    }
}

/// The microlitre yield the recipe gives the batch's system, or zero.
pub open spec fn batch_yield_ml(f: Factory, b: BatchNeed) -> int {
    match spec_find_beer(f.beers@, b.beer_name@) {
        None => 0,
        Some(beer) => match beer.recipe.spec_get(b.system) {
            None => 0,
            Some(ys) => ys.0.microliters_spec(),
        },
    }
}

/// The yield volume the recipe gives the batch's system.
pub open spec fn batch_yield_vol(f: Factory, b: BatchNeed) -> Volume {
    match spec_find_beer(f.beers@, b.beer_name@) {
        None => Volume::Liter(0),
        Some(beer) => match beer.recipe.spec_get(b.system) {
            None => Volume::Liter(0),
            Some(ys) => ys.0,
        },
    }
}

/// Sum of recipe yields in litres over the batches of one beer.
pub open spec fn sum_yield_l(f: Factory, s: Seq<BatchNeed>, n: Seq<char>) -> int
    decreases s.len(),
{
    if s.len() == 0 {
        0
    } else {
        sum_yield_l(f, s.drop_last(), n) + if s.last().beer_name@ == n {
            batch_yield_l(f, s.last())
        } else {
            0
        }
    }
}

/// Sum of recipe yields in microlitres over the batches of one beer.
pub open spec fn sum_yield_ml(f: Factory, s: Seq<BatchNeed>, n: Seq<char>) -> int
    decreases s.len(),
{
    if s.len() == 0 {
        0
    } else {
        sum_yield_ml(f, s.drop_last(), n) + if s.last().beer_name@ == n {
            batch_yield_ml(f, s.last())
        } else {
            0
        }
    }
}

/// How many of the batches belong to one beer.
pub open spec fn count_for(s: Seq<BatchNeed>, n: Seq<char>) -> int
    decreases s.len(),
{
    if s.len() == 0 {
        0
    } else {
        count_for(s.drop_last(), n) + if s.last().beer_name@ == n {
            1int
        } else {
            0int
        }
    }
}

/// A batch the sizer may emit: well formed, its beer registered, its
/// system brewable there (a recipe entry and equipment), and its volume
/// positive and no more than the recipe yield.
pub open spec fn batch_ok(f: Factory, b: BatchNeed) -> bool {
    &&& b.wf()
    &&& match spec_find_beer(f.beers@, b.beer_name@) {
        None => false,
        Some(beer) => match beer.recipe.spec_get(b.system) {
            None => false,
            Some(ys) => {
                &&& has_capacity(f, b.system)
                &&& 0 < b.volume.microliters_spec() <= ys.0.microliters_spec()
            },
        },
    }
}

/// Whether batch `k` closes its (beer, size) run: no batch of the same
/// beer and size follows it directly.
pub open spec fn last_of_group(s: Seq<BatchNeed>, n: Seq<char>, k: int) -> bool {
    k + 1 == s.len() || s[k + 1].beer_name@ != n || s[k + 1].system != s[k].system
}

/// The exact volume rule of the emitter: the batch that closes each
/// (beer, size) run carries the beer's residual — the wanted volume less
/// the yields of the batches before it — exactly when that residual is
/// strictly between zero and the run's full yield (and small enough to
/// carry as litres); every other batch carries the full recipe yield.
pub open spec fn volume_ok_at(
    f: Factory,
    s: Seq<BatchNeed>,
    n: Seq<char>,
    want_ml: int,
    k: int,
) -> bool {
    let rem = want_ml - sum_yield_ml(f, s.take(k), n);
    if last_of_group(s, n, k) && 0 < rem < batch_yield_ml(f, s[k]) && rem <= MAX_AMOUNT {
        s[k].volume == Volume::Liter(rem as u64)
    } else {
        s[k].volume == batch_yield_vol(f, s[k])
    }
}

/// Every batch of the sequence obeys the volume rule.
pub open spec fn volumes_ok(f: Factory, s: Seq<BatchNeed>, n: Seq<char>, want_ml: int) -> bool {
    forall|k: int| 0 <= k < s.len() ==> #[trigger] volume_ok_at(f, s, n, want_ml, k)
}

/// How pushing one batch moves the per-beer aggregates.
proof fn lemma_push_batch(f: Factory, s: Seq<BatchNeed>, b: BatchNeed, n: Seq<char>)
    ensures
        sum_yield_l(f, s.push(b), n) == sum_yield_l(f, s, n) + if b.beer_name@ == n {
            batch_yield_l(f, b)
        } else {
            0int
        },
        sum_yield_ml(f, s.push(b), n) == sum_yield_ml(f, s, n) + if b.beer_name@ == n {
            batch_yield_ml(f, b)
        } else {
            0int
        },
        count_for(s.push(b), n) == count_for(s, n) + if b.beer_name@ == n {
            1int
        } else {
            0int
        },
        forall|k: int| 0 <= k <= s.len() ==> #[trigger] s.push(b).take(k) == s.take(k),
{
    assert(s.push(b).drop_last() =~= s);
    assert(s.push(b).last() == b);
    assert forall|k: int| 0 <= k <= s.len() implies #[trigger] s.push(b).take(k) == s.take(k) by {
        assert(s.push(b).take(k) =~= s.take(k));
    }
}

/// Zero, or the value itself when positive.
pub open spec fn clamp0(x: int) -> int {
    if x < 0 {
        0
    } else {
        x
    }
}

/// The per-batch bookkeeping of the emitter: ids run from `start_id`,
/// the name is the beer's, and each batch is acceptable.
pub open spec fn emitted_core(f: Factory, s: Seq<BatchNeed>, n: Seq<char>, start_id: int) -> bool {
    forall|k: int|
        0 <= k < s.len() ==> {
            &&& (#[trigger] s[k]).id == start_id + k
            &&& s[k].beer_name@ == n
            &&& batch_ok(f, s[k])
        }
}

/// What the emitter guarantees of every batch it has produced for one
/// beer: the bookkeeping above, and the exact volume rule.
pub open spec fn emitted_ok(
    f: Factory,
    s: Seq<BatchNeed>,
    n: Seq<char>,
    want_ml: int,
    start_id: int,
) -> bool {
    &&& emitted_core(f, s, n, start_id)
    &&& volumes_ok(f, s, n, want_ml)
}

/// An admissibility filter of a unique-key entry list keeps the keys
/// unique.
proof fn lemma_admissible_unique(f: Factory, entries: Seq<RecipeEntry>)
    requires
        forall|i: int, j: int|
            0 <= i < j < entries.len() ==> (#[trigger] entries[i]).0 != (#[trigger] entries[j]).0,
    ensures
        forall|x: int, y: int|
            0 <= x < y < spec_admissible(f, entries).len() ==> (#[trigger] spec_admissible(
                f,
                entries,
            )[x]).0 != (#[trigger] spec_admissible(f, entries)[y]).0,
    decreases entries.len(),
{
    if entries.len() > 0 {
        let d = entries.drop_last();
        assert(forall|i: int, j: int|
            0 <= i < j < d.len() ==> (#[trigger] d[i]).0 != (#[trigger] d[j]).0);
        lemma_admissible_unique(f, d);
        lemma_admissible_sub(f, d);
        let adm = spec_admissible(f, entries);
        let rest = spec_admissible(f, d);
        assert forall|x: int, y: int|
            0 <= x < y < adm.len() implies (#[trigger] adm[x]).0 != (#[trigger] adm[y]).0 by {
            if y < rest.len() {
                assert(adm[x] == rest[x] && adm[y] == rest[y]);
            } else {
                assert(adm[y] == entries.last());
                assert(adm[x] == rest[x]);
                assert(d.contains(rest[x]));
                let t = choose|t: int| 0 <= t < d.len() && d[t] == rest[x];
                assert(entries[t] == rest[x]);
                assert(entries[t].0 != entries[entries.len() - 1].0);
            }
        }
    }
}

/// Whether a per-size count proposal is acceptable to the emitter: every
/// count within bounds, and no batches asked of a size that yields
/// nothing.
pub open spec fn counts_in_range(counts: Seq<i64>, sizes_ml: Seq<int>) -> bool {
    forall|j: int|
        0 <= j < counts.len() ==> 0 <= #[trigger] counts[j] <= 1_000_000 && (counts[j] > 0
            ==> sizes_ml[j] > 0)
}

/// Turns the solver's per-size batch counts for one beer into batch
/// records.  Counts out of range, and batches asked of a yieldless size,
/// are refused as a broken internal invariant.
#[verifier::loop_isolation(false)]
#[verifier::rlimit(100)]
#[verifier::spinoff_prover]
pub(crate) fn emit_for_beer(
    factory: &Factory,
    name: &String,
    want_ml: u64,
    sizes: &Vec<(Capacity, u64, u64, Volume)>,
    counts: &Vec<i64>,
    start_id: usize,
) -> (r: Result<Vec<BatchNeed>, PlanError>)
    requires
        factory.wf(),
        spec_find_beer(factory.beers@, name@) is Some,
        ({
            let beer = spec_find_beer(factory.beers@, name@).unwrap();
            let adm = spec_admissible(*factory, beer.recipe.entries@);
            &&& sizes@.len() == adm.len()
            &&& forall|j: int|
                0 <= j < adm.len() ==> {
                    let e = #[trigger] adm[j];
                    &&& sizes@[j].0 == e.0
                    &&& sizes@[j].1 == entry_yield_l(e)
                    &&& sizes@[j].2 == e.1.microliters_spec()
                    &&& sizes@[j].3 == e.1
                }
        }),
        counts@.len() == sizes@.len(),
        sizes@.len() <= 16,
        want_ml <= 120_000_000_000_000u64,
        1 <= start_id <= 100_000_000,
    ensures
        ({
            let beer = spec_find_beer(factory.beers@, name@).unwrap();
            let adm = spec_admissible(*factory, beer.recipe.entries@);
            let ci = counts_int(counts@);
            &&& (r is Ok <==> counts_in_range(
                counts@,
                Seq::new(adm.len(), |j: int| adm[j].1.microliters_spec()),
            ))
            &&& (r is Err ==> r->Err_0 is InternalInvariant)
            &&& (r is Ok ==> {
                let bs = r->Ok_0;
                &&& bs@.len() == seq_sum(ci)
                &&& emitted_ok(*factory, bs@, name@, want_ml as int, start_id as int)
                &&& sum_yield_l(*factory, bs@, name@) == dot_yield(ci, adm)
                &&& count_for(bs@, name@) == seq_sum(ci)
            })
        }),
{
    let ghost beer = spec_find_beer(factory.beers@, name@).unwrap();
    let ghost adm = spec_admissible(*factory, beer.recipe.entries@);
    let ghost ci = counts_int(counts@);
    let ghost yml = Seq::new(adm.len(), |j: int| adm[j].1.microliters_spec());
    proof {
        lemma_find_beer_member(factory.beers@, name@);
        let bi = choose|bi: int|
            0 <= bi < factory.beers@.len() && #[trigger] factory.beers@[bi] == beer;
        assert(factory.beers@[bi].wf());
        assert(beer.wf());
        lemma_admissible_sub(*factory, beer.recipe.entries@);
        lemma_admissible_unique(*factory, beer.recipe.entries@);
    }
    let mut bs: Vec<BatchNeed> = Vec::new();
    let mut rem: u64 = want_ml;
    let mut j: usize = 0;
    while j < sizes.len()
        invariant
            0 <= j <= sizes@.len(),
            bs@.len() == seq_sum(ci.take(j as int)),
            bs@.len() <= j * 1_000_000,
            emitted_core(*factory, bs@, name@, start_id as int),
            volumes_ok(*factory, bs@, name@, want_ml as int),
            forall|kk: int|
                0 <= kk < bs@.len() ==> exists|jj: int|
                    0 <= jj < j && (#[trigger] bs@[kk]).system == adm[jj].0,
            sum_yield_l(*factory, bs@, name@) == dot_yield(ci.take(j as int), adm.take(j as int)),
            count_for(bs@, name@) == seq_sum(ci.take(j as int)),
            rem == clamp0(want_ml - sum_yield_ml(*factory, bs@, name@)),
            rem <= want_ml,
            forall|jj: int|
                0 <= jj < j ==> 0 <= #[trigger] counts@[jj] <= 1_000_000 && (counts@[jj] > 0
                    ==> yml[jj] > 0),
        decreases sizes@.len() - j,
    {
        let cnt_raw = counts[j];
        let (cap, _y_l, y_ml, y_vol) = sizes[j];
        if cnt_raw < 0 || cnt_raw > 1_000_000 {
            return Err(PlanError::InternalInvariant);
        }
        if cnt_raw > 0 && y_ml == 0 {
            return Err(PlanError::InternalInvariant);
        }
        let cnt = cnt_raw as usize;
        proof {
            // the admissible entry behind this size is a recipe entry
            let e = adm[j as int];
            assert(beer.recipe.entries@.contains(e));
            let t = choose|t: int|
                0 <= t < beer.recipe.entries@.len() && beer.recipe.entries@[t] == e;
            lemma_get_of_member(beer.recipe.entries@, t);
            assert(beer.recipe.spec_get(e.0) == Some((e.1, e.2)));
        }
        let ghost before_len = bs@.len() as int;
        let mut k: usize = 0;
        while k < cnt
            invariant
                0 <= k <= cnt,
                cnt == counts@[j as int],
                0 <= j < sizes@.len(),
                cnt <= 1_000_000,
                cap == adm[j as int].0,
                y_ml == adm[j as int].1.microliters_spec(),
                y_vol == adm[j as int].1,
                cnt > 0 ==> y_ml > 0,
                beer.recipe.spec_get(cap) == Some((adm[j as int].1, adm[j as int].2)),
                bs@.len() == before_len + k,
                before_len == seq_sum(ci.take(j as int)),
                bs@.len() <= j * 1_000_000 + k,
                emitted_core(*factory, bs@, name@, start_id as int),
                forall|kk: int|
                    0 <= kk < bs@.len() - 1 ==> #[trigger] volume_ok_at(
                        *factory,
                        bs@,
                        name@,
                        want_ml as int,
                        kk,
                    ),
                k == 0 ==> volumes_ok(*factory, bs@, name@, want_ml as int),
                k == cnt && cnt > 0 ==> volumes_ok(*factory, bs@, name@, want_ml as int),
                0 < k < cnt ==> bs@.len() > 0 && bs@[bs@.len() - 1].volume == batch_yield_vol(
                    *factory,
                    bs@[bs@.len() - 1],
                ),
                forall|kk: int|
                    0 <= kk < before_len ==> exists|jj: int|
                        0 <= jj < j && (#[trigger] bs@[kk]).system == adm[jj].0,
                forall|kk: int|
                    before_len <= kk < bs@.len() ==> (#[trigger] bs@[kk]).system == adm[
                        j as int
                    ].0,
                sum_yield_l(*factory, bs@, name@) == dot_yield(
                    ci.take(j as int),
                    adm.take(j as int),
                ) + k * entry_yield_l(adm[j as int]),
                count_for(bs@, name@) == seq_sum(ci.take(j as int)) + k,
                rem == clamp0(want_ml - sum_yield_ml(*factory, bs@, name@)),
                rem <= want_ml,
            decreases cnt - k,
        {
            let volume: Volume = if k + 1 == cnt && rem > 0 && rem < y_ml && rem
                <= crate::volume::MAX_AMOUNT {
                Volume::Liter(rem)
            } else {
                y_vol
            };
            let id = start_id + bs.len();
            let b = BatchNeed { id, beer_name: name.clone(), system: cap, volume };
            let ghost oldbs = bs@;
            let ghost big_l = bs@.len() as int;
            proof {
                lemma_push_batch(*factory, bs@, b, name@);
                assert(batch_yield_ml(*factory, b) == y_ml);
                assert(batch_yield_l(*factory, b) == entry_yield_l(adm[j as int]));
                assert(batch_yield_vol(*factory, b) == y_vol);
                assert(bs@.push(b).take(bs@.len() as int) == bs@);
                let e = adm[j as int];
                assert(crate::recipe::entry_ok(e));
                assert(batch_ok(*factory, b));
                assert((k + 1) * entry_yield_l(e) == k * entry_yield_l(e) + entry_yield_l(e))
                    by (nonlinear_arith);
            }
            bs.push(b);
            proof {
                assert(bs@[big_l] == b);
                // every batch before the new one keeps the volume rule
                assert forall|kk: int| 0 <= kk < bs@.len() - 1 implies #[trigger] volume_ok_at(
                    *factory,
                    bs@,
                    name@,
                    want_ml as int,
                    kk,
                ) by {
                    assert(bs@[kk] == oldbs[kk]);
                    assert(bs@.take(kk) == oldbs.take(kk));
                    if kk + 1 < big_l {
                        assert(bs@[kk + 1] == oldbs[kk + 1]);
                        assert(volume_ok_at(*factory, oldbs, name@, want_ml as int, kk));
                        assert(last_of_group(bs@, name@, kk) == last_of_group(
                            oldbs,
                            name@,
                            kk,
                        ));
                    } else {
                        // kk closes the old sequence; the new batch follows it
                        if k > 0 {
                            // the same run continues: it carried the full yield
                            assert(oldbs[kk].system == adm[j as int].0);
                            assert(!last_of_group(bs@, name@, kk));
                            assert(bs@[kk].volume == batch_yield_vol(*factory, bs@[kk]));
                        } else {
                            // a new run on another size begins; the closed
                            // run's rule is untouched
                            let jj = choose|jj: int|
                                0 <= jj < j && (#[trigger] oldbs[kk]).system == adm[jj].0;
                            assert(adm[jj].0 != adm[j as int].0);
                            assert(last_of_group(oldbs, name@, kk));
                            assert(last_of_group(bs@, name@, kk));
                            assert(volume_ok_at(*factory, oldbs, name@, want_ml as int, kk));
                        }
                    }
                }
                // the new batch itself
                if k + 1 == cnt {
                    assert(last_of_group(bs@, name@, big_l));
                    assert(bs@.take(big_l) == oldbs);
                    if rem > 0 {
                        assert(want_ml as int - sum_yield_ml(*factory, oldbs, name@) == rem
                            as int);
                    } else {
                        assert(want_ml as int - sum_yield_ml(*factory, oldbs, name@) <= 0);
                    }
                    assert(volume_ok_at(*factory, bs@, name@, want_ml as int, big_l));
                    assert(volumes_ok(*factory, bs@, name@, want_ml as int));
                } else {
                    assert(bs@[big_l].volume == batch_yield_vol(*factory, bs@[big_l]));
                }
                // provenance of systems
                assert forall|kk: int| 0 <= kk < before_len implies exists|jj: int|
                    0 <= jj < j && (#[trigger] bs@[kk]).system == adm[jj].0 by {
                    assert(bs@[kk] == oldbs[kk]);
                    let jj = choose|jj: int|
                        0 <= jj < j && (#[trigger] oldbs[kk]).system == adm[jj].0;
                    assert(bs@[kk].system == adm[jj].0);
                }
            }
            rem = if rem > y_ml {
                rem - y_ml
            } else {
                0
            };
            k = k + 1;
        }
        proof {
            assert(ci.take(j as int + 1).drop_last() =~= ci.take(j as int));
            assert(adm.take(j as int + 1).drop_last() =~= adm.take(j as int));
            assert(ci.take(j as int + 1).last() == ci[j as int]);
            assert(adm.take(j as int + 1).last() == adm[j as int]);
            assert(cnt as int * entry_yield_l(adm[j as int]) == ci[j as int] * entry_yield_l(
                adm[j as int],
            ));
            assert forall|kk: int| 0 <= kk < bs@.len() implies exists|jj: int|
                0 <= jj < j + 1 && (#[trigger] bs@[kk]).system == adm[jj].0 by {
                if kk < before_len {
                    let jj = choose|jj: int|
                        0 <= jj < j && (#[trigger] bs@[kk]).system == adm[jj].0;
                    assert(0 <= jj < j + 1 && bs@[kk].system == adm[jj].0);
                } else {
                    assert(bs@[kk].system == adm[j as int].0);
                }
            }
        }
        j = j + 1;
    }
    proof {
        assert(ci.take(sizes@.len() as int) =~= ci);
        assert(adm.take(sizes@.len() as int) =~= adm);
    }
    Ok(bs)
}

/// A successful find returns a registered beer carrying the sought name.
pub proof fn lemma_find_beer_member(s: Seq<Beer>, n: Seq<char>)
    requires
        spec_find_beer(s, n) is Some,
    ensures
        exists|i: int| 0 <= i < s.len() && #[trigger] s[i] == spec_find_beer(s, n).unwrap(),
        spec_find_beer(s, n).unwrap().name@ == n,
    decreases s.len(),
{
    if s.len() > 0 {
        if s[0].name@ == n {
        } else {
            lemma_find_beer_member(s.drop_first(), n);
            let i = choose|i: int|
                0 <= i < s.drop_first().len() && #[trigger] s.drop_first()[i] == spec_find_beer(
                    s.drop_first(),
                    n,
                ).unwrap();
            assert(s[i + 1] == s.drop_first()[i]);
        }
    }
}

/// Concatenation splits every per-beer aggregate.
proof fn lemma_sum_concat(f: Factory, a: Seq<BatchNeed>, b: Seq<BatchNeed>, n: Seq<char>)
    ensures
        sum_yield_l(f, a + b, n) == sum_yield_l(f, a, n) + sum_yield_l(f, b, n),
        sum_yield_ml(f, a + b, n) == sum_yield_ml(f, a, n) + sum_yield_ml(f, b, n),
        count_for(a + b, n) == count_for(a, n) + count_for(b, n),
    decreases b.len(),
{
    if b.len() == 0 {
        assert(a + b =~= a);
    } else {
        lemma_sum_concat(f, a, b.drop_last(), n);
        assert((a + b).drop_last() =~= a + b.drop_last());
        assert((a + b).last() == b.last());
    }
}

/// Batches that all belong to other beers contribute nothing to a
/// beer's aggregates.
proof fn lemma_seg_other(f: Factory, b: Seq<BatchNeed>, n: Seq<char>)
    requires
        forall|k: int| 0 <= k < b.len() ==> (#[trigger] b[k]).beer_name@ != n,
    ensures
        sum_yield_l(f, b, n) == 0,
        sum_yield_ml(f, b, n) == 0,
        count_for(b, n) == 0,
    decreases b.len(),
{
    if b.len() > 0 {
        assert(forall|k: int|
            0 <= k < b.drop_last().len() ==> (#[trigger] b.drop_last()[k]).beer_name@ != n);
        lemma_seg_other(f, b.drop_last(), n);
    }
}

/// Whether the wishlist names pairwise differ.
pub open spec fn wl_distinct(wl: Seq<(String, Volume)>) -> bool {
    forall|i: int, j: int|
        0 <= i < j < wl.len() ==> (#[trigger] wl[i]).0@ != (#[trigger] wl[j]).0@
}

/// Whether a wishlist line can be sized at all: its beer is registered,
/// its volume is a liquid amount in range, some admissible size exists,
/// there are few enough of them, and positive demand meets a positive
/// yield.
pub open spec fn beer_feasible(f: Factory, w: (String, Volume)) -> bool {
    match spec_find_beer(f.beers@, w.0@) {
        None => false,
        Some(b) => {
            let adm = spec_admissible(f, b.recipe.entries@);
            &&& w.1.is_liquid()
            &&& w.1.amount_spec() <= MAX_AMOUNT
            &&& 0 < adm.len() <= 16
            &&& (w.1.liters_rounded_spec() > 0 ==> max_yield_l(adm) > 0)
        },
    }
}

/// Whether the whole wishlist can be sized.
pub open spec fn sizing_feasible(f: Factory, wl: Seq<(String, Volume)>) -> bool {
    forall|i: int| 0 <= i < wl.len() ==> beer_feasible(f, #[trigger] wl[i])
}

/// The admissible recipe entries of the i-th wishlist beer.
pub open spec fn beer_adm(f: Factory, wl: Seq<(String, Volume)>, i: int) -> Seq<RecipeEntry> {
    spec_admissible(f, spec_find_beer(f.beers@, wl[i].0@).unwrap().recipe.entries@)
}

/// The demand of the i-th wishlist line in whole litres.
pub open spec fn beer_want_l(wl: Seq<(String, Volume)>, i: int) -> int {
    wl[i].1.liters_rounded_spec()
}

/// Total batch count of a per-beer count table.
pub open spec fn total_count(counts: Seq<Vec<i64>>) -> int
    decreases counts.len(),
{
    if counts.len() == 0 {
        0
    } else {
        total_count(counts.drop_last()) + seq_sum(counts_int(counts.last()@))
    }
}

/// Whether a per-beer count table is acceptable: the right shape, counts
/// in range, demand covered, and each beer at its provably minimal batch
/// count.
pub open spec fn counts_acceptable(
    f: Factory,
    wl: Seq<(String, Volume)>,
    counts: Seq<Vec<i64>>,
) -> bool {
    &&& counts.len() == wl.len()
    &&& total_count(counts) <= 99_999_999
    &&& forall|i: int|
        0 <= i < wl.len() ==> {
            let adm = beer_adm(f, wl, i);
            let ci = counts_int(#[trigger] counts[i]@);
            &&& counts[i]@.len() == adm.len()
            &&& counts_in_range(
                counts[i]@,
                Seq::new(adm.len(), |j: int| adm[j].1.microliters_spec()),
            )
            &&& dot_yield(ci, adm) >= beer_want_l(wl, i)
            &&& seq_sum(ci) == spec_min_count(beer_want_l(wl, i), max_yield_l(adm))
        }
}

/// With every row's counts nonnegative, prefixes of the table never
/// exceed the whole.
proof fn lemma_total_mono(counts: Seq<Vec<i64>>, m: int)
    requires
        0 <= m <= counts.len(),
        forall|i: int, j: int|
            0 <= i < counts.len() && 0 <= j < counts[i]@.len() ==> #[trigger] counts[i]@[j] >= 0,
    ensures
        total_count(counts.take(m)) <= total_count(counts),
        0 <= total_count(counts.take(m)),
    decreases counts.len() + counts.len() - m,
{
    lemma_total_nonneg(counts);
    if m == counts.len() {
        assert(counts.take(m) =~= counts);
    } else {
        lemma_total_mono(counts, m + 1);
        let t = counts.take(m + 1);
        assert(t.drop_last() =~= counts.take(m));
        assert(t.last() == counts[m]);
        lemma_row_nonneg(counts[m]@);
        lemma_total_nonneg(counts.take(m));
    }
}

/// A row of nonnegative counts has a nonnegative sum.
proof fn lemma_row_nonneg(row: Seq<i64>)
    requires
        forall|j: int| 0 <= j < row.len() ==> #[trigger] row[j] >= 0,
    ensures
        seq_sum(counts_int(row)) >= 0,
    decreases row.len(),
{
    if row.len() > 0 {
        assert(counts_int(row).drop_last() =~= counts_int(row.drop_last()));
        lemma_row_nonneg(row.drop_last());
    }
}

/// A table of nonnegative counts has a nonnegative total.
proof fn lemma_total_nonneg(counts: Seq<Vec<i64>>)
    requires
        forall|i: int, j: int|
            0 <= i < counts.len() && 0 <= j < counts[i]@.len() ==> #[trigger] counts[i]@[j] >= 0,
    ensures
        total_count(counts) >= 0,
    decreases counts.len(),
{
    if counts.len() > 0 {
        assert(forall|i: int, j: int|
            0 <= i < counts.drop_last().len() && 0 <= j < counts.drop_last()[i]@.len()
                ==> #[trigger] counts.drop_last()[i]@[j] >= 0);
        lemma_total_nonneg(counts.drop_last());
        lemma_row_nonneg(counts.last()@);
    }
}

/// With unique names, finding by a member's name gives that member.
pub proof fn lemma_find_beer_at(s: Seq<Beer>, n: Seq<char>, i: int)
    requires
        0 <= i < s.len(),
        s[i].name@ == n,
        forall|a: int, b: int|
            0 <= a < b < s.len() ==> (#[trigger] s[a]).name@ != (#[trigger] s[b]).name@,
    ensures
        spec_find_beer(s, n) == Some(s[i]),
    decreases i,
{
    if i == 0 {
    } else {
        assert(s[0].name@ != n);
        assert(s.drop_first()[i - 1] == s[i]);
        assert forall|a: int, b: int|
            0 <= a < b < s.drop_first().len() implies (#[trigger] s.drop_first()[a]).name@ != (
        #[trigger] s.drop_first()[b]).name@ by {
            assert(s.drop_first()[a] == s[a + 1]);
            assert(s.drop_first()[b] == s[b + 1]);
        }
        lemma_find_beer_at(s.drop_first(), n, i - 1);
    }
}

/// What the sizer guarantees of the batches it returns: ids count up from
/// one, every batch is acceptable, every batch belongs to a wishlist line
/// and carries its full yield or that line's residual, and each line gets
/// exactly its proposed litres and its provably minimal batch count.
pub open spec fn sized_ok(
    f: Factory,
    wl: Seq<(String, Volume)>,
    counts: Seq<Vec<i64>>,
    bs: Seq<BatchNeed>,
) -> bool {
    &&& bs.len() == total_count(counts)
    &&& forall|k: int|
        0 <= k < bs.len() ==> (#[trigger] bs[k]).id == k + 1 && batch_ok(f, bs[k])
    &&& forall|k: int|
        0 <= k < bs.len() ==> exists|i: int|
            0 <= i < wl.len() && (#[trigger] bs[k]).beer_name@ == (#[trigger] wl[i]).0@
                && volume_ok_at(f, bs, wl[i].0@, wl[i].1.microliters_spec(), k)
    &&& forall|i: int|
        0 <= i < wl.len() ==> sum_yield_l(f, bs, (#[trigger] wl[i]).0@) == dot_yield(
            counts_int(counts[i]@),
            beer_adm(f, wl, i),
        )
    &&& forall|i: int|
        0 <= i < wl.len() ==> count_for(bs, (#[trigger] wl[i]).0@) == spec_min_count(
            beer_want_l(wl, i),
            max_yield_l(beer_adm(f, wl, i)),
        )
}

/// Demand-coverage law of the sizer: on a successful sizing, the recipe
/// yields of each wishlist line's batches add up, in whole litres, to at
/// least the wanted volume.
pub proof fn lemma_sizer_covers(
    f: Factory,
    wl: Seq<(String, Volume)>,
    counts: Seq<Vec<i64>>,
    bs: Seq<BatchNeed>,
    i: int,
)
    requires
        counts_acceptable(f, wl, counts),
        sized_ok(f, wl, counts, bs),
        0 <= i < wl.len(),
    ensures
        sum_yield_l(f, bs, wl[i].0@) >= wl[i].1.liters_rounded_spec(),
{
}

/// Whether the factory owns equipment of this capacity, decided
/// executably.
fn has_capacity_exec(factory: &Factory, c: &Capacity) -> (r: bool)
    ensures
        r == has_capacity(*factory, *c),
{
    let n = factory.equipments.len();
    let mut i: usize = 0;
    while i < n
        invariant
            n == factory.equipments@.len(),
            0 <= i <= n,
            forall|j: int| 0 <= j < i ==> (#[trigger] factory.equipments@[j]).capacity != *c,
        decreases n - i,
    {
        if factory.equipments[i].capacity == *c {
            return true;
        }
        i = i + 1;
    }
    false
}

/// The admissible sizes of one wishlist line: for each brewable recipe
/// entry, its capacity, yield in litres, yield in microlitres, and yield
/// volume; along with the line's demand and the largest yield.  `Err`
/// exactly when the line cannot be sized.
#[verifier::loop_isolation(false)]
#[verifier::rlimit(50)]
pub(crate) fn line_sizes(factory: &Factory, w: &(String, Volume)) -> (r: Result<
    (Vec<(Capacity, u64, u64, Volume)>, u64, u64, u64),
    PlanError,
>)
    requires
        factory.wf(),
    ensures
        r is Err ==> r->Err_0 is PlannerInfeasible,
        r is Ok <==> beer_feasible(*factory, *w),
        r is Ok ==> ({
            let beer = spec_find_beer(factory.beers@, w.0@).unwrap();
            let adm = spec_admissible(*factory, beer.recipe.entries@);
            &&& r->Ok_0.0@.len() == adm.len()
            &&& 0 < adm.len() <= 16
            &&& forall|j: int|
                0 <= j < adm.len() ==> {
                    let e = #[trigger] adm[j];
                    &&& r->Ok_0.0@[j].0 == e.0
                    &&& r->Ok_0.0@[j].1 == entry_yield_l(e)
                    &&& r->Ok_0.0@[j].2 == e.1.microliters_spec()
                    &&& r->Ok_0.0@[j].3 == e.1
                }
            &&& forall|j: int| 0 <= j < adm.len() ==> crate::recipe::entry_ok(#[trigger] adm[j])
            &&& r->Ok_0.1 == w.1.liters_rounded_spec()
            &&& r->Ok_0.1 <= 120_000_001_000u64
            &&& r->Ok_0.2 == w.1.microliters_spec()
            &&& r->Ok_0.2 <= 120_000_000_000_000u64
            &&& r->Ok_0.3 == max_yield_l(adm)
            &&& r->Ok_0.3 <= 200_000_000u64
            &&& forall|j: int| 0 <= j < adm.len() ==> 0 <= #[trigger] r->Ok_0.0@[j].1 <= 200_000_000u64
        }),
{
    let name = &w.0;
    let vol = &w.1;
    let bi = match factory.find_beer(name.as_str()) {
        Some(bi) => bi,
        None => {
            proof {
                if spec_find_beer(factory.beers@, name@) is Some {
                    lemma_find_beer_member(factory.beers@, name@);
                }
            }
            return Err(PlanError::PlannerInfeasible);
        },
    };
    let beer = &factory.beers[bi];
    proof {
        lemma_find_beer_at(factory.beers@, name@, bi as int);
        assert(factory.beers@[bi as int].wf());
    }
    let vol_liquid = !matches!(vol, Volume::Lb(_));
    let vol_in_range = match vol {
        Volume::BeerBarrel(x) => *x <= MAX_AMOUNT,
        Volume::GallonUS(x) => *x <= MAX_AMOUNT,
        Volume::GallonUSDry(x) => *x <= MAX_AMOUNT,
        Volume::GallonImperial(x) => *x <= MAX_AMOUNT,
        Volume::Liter(x) => *x <= MAX_AMOUNT,
        Volume::Lb(x) => *x <= MAX_AMOUNT,
    };
    if !vol_liquid || !vol_in_range {
        return Err(PlanError::PlannerInfeasible);
    }
    let ghost adm = spec_admissible(*factory, beer.recipe.entries@);
    let mut sizes: Vec<(Capacity, u64, u64, Volume)> = Vec::new();
    let en = beer.recipe.entries.len();
    let mut t: usize = 0;
    while t < en
        invariant
            0 <= t <= en,
            en == beer.recipe.entries@.len(),
            beer == factory.beers@[bi as int],
            beer.wf(),
            ({
                let admt = spec_admissible(*factory, beer.recipe.entries@.take(t as int));
                &&& sizes@.len() == admt.len()
                &&& forall|j: int|
                    0 <= j < admt.len() ==> {
                        let e = #[trigger] admt[j];
                        &&& sizes@[j].0 == e.0
                        &&& sizes@[j].1 == entry_yield_l(e)
                        &&& sizes@[j].2 == e.1.microliters_spec()
                        &&& sizes@[j].3 == e.1
                    }
            }),
        decreases en - t,
    {
        let (c, y, _st) = beer.recipe.entries[t];
        proof {
            assert(crate::recipe::entry_ok(beer.recipe.entries@[t as int]));
            assert(beer.recipe.entries@.take(t as int + 1).drop_last() =~= beer
                .recipe
                .entries@
                .take(t as int));
            assert(beer.recipe.entries@.take(t as int + 1).last() == beer.recipe.entries@[t
                as int]);
        }
        if has_capacity_exec(factory, &c) {
            sizes.push((c, y.liters_rounded(), y.microliters(), y));
        }
        t = t + 1;
    }
    proof {
        assert(beer.recipe.entries@.take(en as int) =~= beer.recipe.entries@);
        assert(spec_find_beer(factory.beers@, w.0@).unwrap() == *beer);
        lemma_admissible_sub(*factory, beer.recipe.entries@);
        assert forall|jj: int| 0 <= jj < adm.len() implies crate::recipe::entry_ok(
            #[trigger] adm[jj],
        ) by {
            let e = adm[jj];
            assert(beer.recipe.entries@.contains(e));
            let tt = choose|tt: int|
                0 <= tt < beer.recipe.entries@.len() && beer.recipe.entries@[tt] == e;
            assert(crate::recipe::entry_ok(beer.recipe.entries@[tt]));
        }
    }
    if sizes.len() == 0 || sizes.len() > 16 {
        return Err(PlanError::PlannerInfeasible);
    }
    let want_l = vol.liters_rounded();
    let want_ml = vol.microliters();
    let mut maxy: u64 = 0;
    let mut j: usize = 0;
    while j < sizes.len()
        invariant
            0 <= j <= sizes@.len(),
            maxy == max_yield_l(adm.take(j as int)),
            maxy <= 200_000_000,
        decreases sizes@.len() - j,
    {
        proof {
            assert(adm.take(j as int + 1).drop_last() =~= adm.take(j as int));
            assert(adm.take(j as int + 1).last() == adm[j as int]);
            crate::volume::lemma_microliters_bound(adm[j as int].1);
        }
        let (_c, y_l, _y_ml, _y_vol) = sizes[j];
        if y_l > maxy {
            maxy = y_l;
        }
        j = j + 1;
    }
    proof {
        assert(adm.take(sizes@.len() as int) =~= adm);
    }
    if want_l > 0 && maxy == 0 {
        return Err(PlanError::PlannerInfeasible);
    }
    proof {
        assert forall|j: int| 0 <= j < adm.len() implies 0 <= #[trigger] sizes@[j].1
            <= 200_000_000u64 by {
            crate::volume::lemma_microliters_bound(adm[j].1);
        }
    }
    Ok((sizes, want_l, want_ml, maxy))
}

/// Validates one line's proposed counts: in range, no batch on a
/// yieldless size, demand covered, and exactly the minimal batch count.
/// Returns the line's total batch count.
#[verifier::loop_isolation(false)]
#[verifier::rlimit(50)]
pub(crate) fn check_row(
    row: &Vec<i64>,
    sizes: &Vec<(Capacity, u64, u64, Volume)>,
    want_l: u64,
    maxy: u64,
    Ghost(adm): Ghost<Seq<RecipeEntry>>,
) -> (r: Result<u64, PlanError>)
    requires
        sizes@.len() == adm.len() <= 16,
        forall|j: int|
            0 <= j < adm.len() ==> {
                let e = #[trigger] adm[j];
                &&& sizes@[j].0 == e.0
                &&& sizes@[j].1 == entry_yield_l(e)
                &&& sizes@[j].2 == e.1.microliters_spec()
                &&& sizes@[j].3 == e.1
            },
        forall|j: int| 0 <= j < adm.len() ==> crate::recipe::entry_ok(#[trigger] adm[j]),
        maxy == max_yield_l(adm),
        maxy <= 200_000_000,
        want_l > 0 ==> maxy > 0,
        want_l <= 120_000_001_000u64,
    ensures
        r is Err ==> r->Err_0 is InternalInvariant,
        r is Ok <==> ({
            &&& row@.len() == adm.len()
            &&& counts_in_range(row@, Seq::new(adm.len(), |j: int| adm[j].1.microliters_spec()))
            &&& dot_yield(counts_int(row@), adm) >= want_l
            &&& seq_sum(counts_int(row@)) == spec_min_count(want_l as int, maxy as int)
        }),
        r is Ok ==> r->Ok_0 == seq_sum(counts_int(row@)) && r->Ok_0 <= 16_000_000,
{
    let ghost ci = counts_int(row@);
    if row.len() != sizes.len() {
        return Err(PlanError::InternalInvariant);
    }
    let mut sum: u64 = 0;
    let mut dot: u64 = 0;
    let mut j2: usize = 0;
    while j2 < row.len()
        invariant
            0 <= j2 <= row@.len(),
            row@.len() == sizes@.len(),
            forall|jj: int|
                0 <= jj < j2 ==> 0 <= #[trigger] row@[jj] <= 1_000_000 && (row@[jj] > 0
                    ==> adm[jj].1.microliters_spec() > 0),
            sum == seq_sum(ci.take(j2 as int)),
            sum <= j2 * 1_000_000,
            dot == dot_yield(ci.take(j2 as int), adm.take(j2 as int)),
            dot <= j2 * 1_000_000 * 200_000_000,
        decreases row@.len() - j2,
    {
        let c = row[j2];
        let (_cc, y_l, y_ml, _yv) = sizes[j2];
        if c < 0 || c > 1_000_000 {
            return Err(PlanError::InternalInvariant);
        }
        if c > 0 && y_ml == 0 {
            return Err(PlanError::InternalInvariant);
        }
        proof {
            assert(ci.take(j2 as int + 1).drop_last() =~= ci.take(j2 as int));
            assert(adm.take(j2 as int + 1).drop_last() =~= adm.take(j2 as int));
            assert(ci.take(j2 as int + 1).last() == ci[j2 as int]);
            assert(adm.take(j2 as int + 1).last() == adm[j2 as int]);
            assert(entry_yield_l(adm[j2 as int]) <= 200_000_000) by {
                crate::volume::lemma_microliters_bound(adm[j2 as int].1);
            }
            assert(ci[j2 as int] * entry_yield_l(adm[j2 as int]) == c as int * y_l as int);
            assert(c as int * y_l as int <= 1_000_000 * 200_000_000) by (nonlinear_arith)
                requires
                    0 <= c <= 1_000_000,
                    0 <= y_l <= 200_000_000,
            ;
            assert(0 <= c as int * y_l as int) by (nonlinear_arith)
                requires
                    0 <= c,
                    0 <= y_l,
            ;
        }
        sum = sum + (c as u64);
        dot = dot + (c as u64) * y_l;
        j2 = j2 + 1;
    }
    proof {
        assert(ci.take(row@.len() as int) =~= ci);
        assert(adm.take(row@.len() as int) =~= adm);
    }
    if dot < want_l {
        return Err(PlanError::InternalInvariant);
    }
    let mc: u64 = if want_l == 0 {
        0
    } else {
        proof {
            lemma_div_is_ordered(want_l + maxy - 1, 240_000_001_000u64 as int, maxy as int);
            lemma_div_pos_is_pos(want_l + maxy - 1, maxy as int);
        }
        (want_l + maxy - 1) / maxy
    };
    if sum != mc {
        return Err(PlanError::InternalInvariant);
    }
    Ok(sum)
}

/// Appending one beer's freshly emitted segment to the batches so far
/// keeps every earlier line's aggregates and gives the new line the
/// segment's own.
#[verifier::rlimit(50)]
proof fn lemma_append_segment(
    f: Factory,
    wl: Seq<(String, Volume)>,
    i: int,
    a: Seq<BatchNeed>,
    b: Seq<BatchNeed>,
)
    requires
        wl_distinct(wl),
        0 <= i < wl.len(),
        forall|k: int| 0 <= k < a.len() ==> (#[trigger] a[k]).id == k + 1 && batch_ok(f, a[k]),
        forall|k: int|
            0 <= k < a.len() ==> exists|ii: int|
                0 <= ii < i && (#[trigger] a[k]).beer_name@ == (#[trigger] wl[ii]).0@
                    && volume_ok_at(f, a, wl[ii].0@, wl[ii].1.microliters_spec(), k),
        emitted_ok(f, b, wl[i].0@, wl[i].1.microliters_spec(), a.len() as int + 1),
    ensures
        forall|k: int|
            0 <= k < (a + b).len() ==> (#[trigger] (a + b)[k]).id == k + 1 && batch_ok(
                f,
                (a + b)[k],
            ),
        forall|k: int|
            0 <= k < (a + b).len() ==> exists|ii: int|
                0 <= ii < i + 1 && (#[trigger] (a + b)[k]).beer_name@ == (#[trigger] wl[ii]).0@
                    && volume_ok_at(f, a + b, wl[ii].0@, wl[ii].1.microliters_spec(), k),
        forall|ii: int|
            0 <= ii < i ==> sum_yield_l(f, a + b, (#[trigger] wl[ii]).0@) == sum_yield_l(
                f,
                a,
                wl[ii].0@,
            ) && count_for(a + b, wl[ii].0@) == count_for(a, wl[ii].0@),
        sum_yield_l(f, a + b, wl[i].0@) == sum_yield_l(f, b, wl[i].0@),
        count_for(a + b, wl[i].0@) == count_for(b, wl[i].0@),
{
    let n = wl[i].0@;
    let want_ml = wl[i].1.microliters_spec();
    let ab = a + b;
    // a's batches belong to earlier lines, whose names differ from n
    assert forall|k: int| 0 <= k < a.len() implies (#[trigger] a[k]).beer_name@ != n by {
        let ii = choose|ii: int|
            0 <= ii < i && (#[trigger] a[k]).beer_name@ == (#[trigger] wl[ii]).0@ && volume_ok_at(
                f,
                a,
                wl[ii].0@,
                wl[ii].1.microliters_spec(),
                k,
            );
        assert(wl[ii].0@ != n);
    }
    lemma_seg_other(f, a, n);
    lemma_sum_concat(f, a, b, n);
    // b's batches all carry n
    assert forall|ii: int| 0 <= ii < i implies sum_yield_l(f, ab, (#[trigger] wl[ii]).0@)
        == sum_yield_l(f, a, wl[ii].0@) && count_for(ab, wl[ii].0@) == count_for(
        a,
        wl[ii].0@,
    ) by {
        lemma_sum_concat(f, a, b, wl[ii].0@);
        assert(forall|k: int| 0 <= k < b.len() ==> (#[trigger] b[k]).beer_name@ == n);
        assert(wl[ii].0@ != n);
        assert forall|k: int| 0 <= k < b.len() implies (#[trigger] b[k]).beer_name@ != wl[ii].0@
            by {}
        lemma_seg_other(f, b, wl[ii].0@);
    }
    // prefixes of the concatenation agree with their sources
    assert forall|k: int| 0 <= k <= a.len() implies #[trigger] ab.take(k) == a.take(k) by {
        assert(ab.take(k) =~= a.take(k));
    }
    assert forall|k: int| 0 <= k <= b.len() implies #[trigger] ab.take(a.len() + k) == a + b.take(
        k,
    ) by {
        assert(ab.take(a.len() + k) =~= a + b.take(k));
    }
    // ids and acceptability across the concatenation
    assert forall|k: int| 0 <= k < ab.len() implies (#[trigger] ab[k]).id == k + 1 && batch_ok(
        f,
        ab[k],
    ) by {
        if k < a.len() {
            assert(ab[k] == a[k]);
        } else {
            let kl = k - a.len();
            assert(ab[k] == b[kl]);
            assert(b[kl].id == a.len() + 1 + kl && batch_ok(f, b[kl]));
        }
    }
    // the per-batch volume rule carries over
    assert forall|k: int| 0 <= k < ab.len() implies exists|ii: int|
        0 <= ii < i + 1 && (#[trigger] ab[k]).beer_name@ == (#[trigger] wl[ii]).0@ && volume_ok_at(
            f,
            ab,
            wl[ii].0@,
            wl[ii].1.microliters_spec(),
            k,
        ) by {
        if k < a.len() {
            let ii = choose|ii: int|
                0 <= ii < i && (#[trigger] a[k]).beer_name@ == (#[trigger] wl[ii]).0@
                    && volume_ok_at(f, a, wl[ii].0@, wl[ii].1.microliters_spec(), k);
            assert(ab[k] == a[k]);
            assert(ab.take(k) == a.take(k));
            if k + 1 < a.len() {
                assert(ab[k + 1] == a[k + 1]);
                assert(last_of_group(ab, wl[ii].0@, k) == last_of_group(a, wl[ii].0@, k));
            } else {
                // the appended batches belong to another beer, so the
                // closing batch of this one stays the close of its run
                assert(last_of_group(a, wl[ii].0@, k));
                if b.len() > 0 {
                    assert(ab[k + 1] == b[0]);
                    assert(b[0].beer_name@ == n);
                    assert(wl[ii].0@ != n);
                }
                assert(last_of_group(ab, wl[ii].0@, k));
            }
            assert(volume_ok_at(f, ab, wl[ii].0@, wl[ii].1.microliters_spec(), k));
        } else {
            let kl = k - a.len();
            assert(ab[k] == b[kl]);
            assert(b[kl].beer_name@ == n && volume_ok_at(f, b, n, want_ml, kl));
            assert(ab.take(k) == a + b.take(kl));
            lemma_sum_concat(f, a, b.take(kl), n);
            assert(sum_yield_ml(f, ab.take(k), n) == sum_yield_ml(f, b.take(kl), n));
            if kl + 1 < b.len() {
                assert(ab[k + 1] == b[kl + 1]);
                assert(last_of_group(ab, n, k) == last_of_group(b, n, kl));
            } else {
                assert(last_of_group(b, n, kl));
                assert(last_of_group(ab, n, k));
            }
            assert(volume_ok_at(f, ab, wl[i].0@, wl[i].1.microliters_spec(), k));
        }
    }
}

/// Checks a per-size batch-count table (one row per wishlist line) and
/// materialises the batch records.  The result is `Ok` exactly when the
/// wishlist can be sized at all and the table is acceptable: rows of the
/// right shape with counts in range, each line's demand covered, the
/// whole within the identifier budget, and each line at its provably
/// minimal batch count.  An infeasible wishlist line is a planning
/// failure; a bad table is a broken internal invariant.
#[verifier::loop_isolation(false)]
#[verifier::rlimit(100)]
#[verifier::spinoff_prover]
pub fn size_batches(
    factory: &Factory,
    wishlist: &Vec<(String, Volume)>,
    counts: &Vec<Vec<i64>>,
) -> (r: Result<Vec<BatchNeed>, PlanError>)
    requires
        factory.wf(),
        wl_distinct(wishlist@),
    ensures
        r is Ok <==> (sizing_feasible(*factory, wishlist@) && counts_acceptable(
            *factory,
            wishlist@,
            counts@,
        )),
        r is Ok ==> sized_ok(*factory, wishlist@, counts@, r->Ok_0@),
        r is Err ==> (r->Err_0 is PlannerInfeasible || r->Err_0 is InternalInvariant),
        r is Err && r->Err_0 is PlannerInfeasible ==> !sizing_feasible(*factory, wishlist@),
{
    let n = wishlist.len();
    if counts.len() != n {
        return Err(PlanError::InternalInvariant);
    }
    let mut bs: Vec<BatchNeed> = Vec::new();
    let mut total: u64 = 0;
    let mut i: usize = 0;
    while i < n
        invariant
            0 <= i <= n,
            counts@.len() == n == wishlist@.len(),
            total == bs@.len(),
            bs@.len() == total_count(counts@.take(i as int)),
            total <= 99_999_999,
            forall|k: int|
                0 <= k < bs@.len() ==> (#[trigger] bs@[k]).id == k + 1 && batch_ok(
                    *factory,
                    bs@[k],
                ),
            forall|k: int|
                0 <= k < bs@.len() ==> exists|ii: int|
                    0 <= ii < i && (#[trigger] bs@[k]).beer_name@ == (#[trigger] wishlist@[ii]).0@
                        && volume_ok_at(
                        *factory,
                        bs@,
                        wishlist@[ii].0@,
                        wishlist@[ii].1.microliters_spec(),
                        k,
                    ),
            forall|ii: int| 0 <= ii < i ==> beer_feasible(*factory, #[trigger] wishlist@[ii]),
            forall|ii: int|
                0 <= ii < i ==> {
                    let adm = beer_adm(*factory, wishlist@, ii);
                    let ci = counts_int(#[trigger] counts@[ii]@);
                    &&& counts@[ii]@.len() == adm.len()
                    &&& counts_in_range(
                        counts@[ii]@,
                        Seq::new(adm.len(), |j: int| adm[j].1.microliters_spec()),
                    )
                    &&& dot_yield(ci, adm) >= beer_want_l(wishlist@, ii)
                    &&& seq_sum(ci) == spec_min_count(
                        beer_want_l(wishlist@, ii),
                        max_yield_l(adm),
                    )
                },
            forall|ii: int|
                0 <= ii < i ==> sum_yield_l(*factory, bs@, (#[trigger] wishlist@[ii]).0@)
                    == dot_yield(counts_int(counts@[ii]@), beer_adm(*factory, wishlist@, ii)),
            forall|ii: int|
                0 <= ii < i ==> count_for(bs@, (#[trigger] wishlist@[ii]).0@) == spec_min_count(
                    beer_want_l(wishlist@, ii),
                    max_yield_l(beer_adm(*factory, wishlist@, ii)),
                ),
        decreases n - i,
    {
        let w = &wishlist[i];
        let (sizes, want_l, want_ml, maxy) = match line_sizes(factory, w) {
            Ok(x) => x,
            Err(e) => {
                return Err(e);
            },
        };
        let ghost beer = spec_find_beer(factory.beers@, w.0@).unwrap();
        let ghost adm = spec_admissible(*factory, beer.recipe.entries@);
        let row = &counts[i];
        let sum = match check_row(row, &sizes, want_l, maxy, Ghost(adm)) {
            Ok(s) => s,
            Err(e) => {
                proof {
                    if counts_acceptable(*factory, wishlist@, counts@) {
                        assert(false);
                    }
                }
                return Err(e);
            },
        };
        if sum > 99_999_999 - total {
            proof {
                if counts_acceptable(*factory, wishlist@, counts@) {
                    assert forall|a: int, b: int|
                        0 <= a < counts@.len() && 0 <= b
                            < counts@[a]@.len() implies #[trigger] counts@[a]@[b] >= 0 by {
                        assert(counts_in_range(
                            counts@[a]@,
                            Seq::new(
                                beer_adm(*factory, wishlist@, a).len(),
                                |j: int| beer_adm(*factory, wishlist@, a)[j].1.microliters_spec(),
                            ),
                        ));
                    }
                    lemma_total_mono(counts@, i as int + 1);
                    assert(counts@.take(i as int + 1).drop_last() =~= counts@.take(i as int));
                    assert(counts@.take(i as int + 1).last() == counts@[i as int]);
                    assert(false);
                }
            }
            return Err(PlanError::InternalInvariant);
        }
        let start_id: usize = (total as usize) + 1;
        let seg = match emit_for_beer(factory, &w.0, want_ml, &sizes, row, start_id) {
            Ok(seg) => seg,
            Err(_) => {
                proof {
                    assert(false);
                }
                return Err(PlanError::InternalInvariant);
            },
        };
        let ghost old_bs = bs@;
        let ghost segv = seg@;
        let mut seg_mut = seg;
        bs.append(&mut seg_mut);
        proof {
            assert(bs@ == old_bs + segv);
            assert(counts@.take(i as int + 1).drop_last() =~= counts@.take(i as int));
            assert(counts@.take(i as int + 1).last() == counts@[i as int]);
            lemma_append_segment(*factory, wishlist@, i as int, old_bs, segv);
        }
        total = total + sum;
        i = i + 1;
    }
    proof {
        assert(counts@.take(n as int) =~= counts@);
    }
    Ok(bs)
}

impl Factory {
    /// Sizes a wishlist into batches.  Demand and yields are put to the
    /// solver in whole litres, one unknown batch count per (line,
    /// admissible size), minimising the total count; the solver's
    /// proposal is then checked and materialised by `size_batches`, so
    /// everything promised of the result holds whatever the solver did.
    /// An unsatisfiable wishlist surfaces as a planning failure, a solver
    /// give-up as a timeout.
    #[verifier::loop_isolation(false)]
    pub fn calculate_batches(&self, wishlist: &Vec<(String, Volume)>) -> (r: Result<
        Vec<BatchNeed>,
        PlanError,
    >)
        requires
            self.wf(),
            wl_distinct(wishlist@),
        ensures
            r is Ok ==> sizing_feasible(*self, wishlist@),
            r is Ok ==> exists|cs: Seq<Vec<i64>>|
                counts_acceptable(*self, wishlist@, cs) && sized_ok(
                    *self,
                    wishlist@,
                    cs,
                    r->Ok_0@,
                ),
            r is Err ==> (r->Err_0 is PlannerInfeasible || r->Err_0 is PlannerTimeout
                || r->Err_0 is InternalInvariant),
    {
        let opt = crate::smt::smt_optimize();
        let zero = crate::smt::smt_int_val(0);
        let mut vars: Vec<Vec<z3::ast::Int>> = Vec::new();
        let mut all: Vec<z3::ast::Int> = Vec::new();
        let mut i: usize = 0;
        while i < wishlist.len()
            invariant
                0 <= i <= wishlist@.len(),
            decreases wishlist@.len() - i,
        {
            let w = &wishlist[i];
            let (sizes, want_l, _want_ml, _maxy) = match line_sizes(self, w) {
                Ok(x) => x,
                Err(e) => {
                    return Err(e);
                },
            };
            let mut terms: Vec<z3::ast::Int> = Vec::new();
            let mut row: Vec<z3::ast::Int> = Vec::new();
            let mut j: usize = 0;
            while j < sizes.len()
                invariant
                    0 <= j <= sizes@.len(),
                    terms@.len() == j,
                decreases sizes@.len() - j,
            {
                proof {
                    reveal_strlit("batch count");
                    assert(crate::smt::nul_free("batch count"@));
                }
                let v = crate::smt::smt_int_const("batch count", i, j);
                crate::smt::smt_assert(&opt, &crate::smt::smt_ge(&v, &zero));
                let (_c, y_l, _y_ml, _y_vol) = sizes[j];
                terms.push(
                    crate::smt::smt_mul(&v, &crate::smt::smt_int_val(y_l as i64)),
                );
                all.push(crate::smt::smt_int_clone(&v));
                row.push(v);
                j = j + 1;
            }
            let covered = crate::smt::smt_ge(
                &crate::smt::smt_sum(&terms),
                &crate::smt::smt_int_val(want_l as i64),
            );
            crate::smt::smt_assert(&opt, &covered);
            vars.push(row);
            i = i + 1;
        }
        if all.len() > 0 {
            let total = crate::smt::smt_sum(&all);
            crate::smt::smt_minimize(&opt, &total);
        }
        match crate::smt::smt_check(&opt) {
            crate::smt::SolveStatus::Unsat => {
                return Err(PlanError::PlannerInfeasible);
            },
            crate::smt::SolveStatus::Unknown => {
                let reason = match crate::smt::smt_reason_unknown(&opt) {
                    Some(s) => s,
                    None => String::new(),
                };
                return Err(PlanError::PlannerTimeout(reason));
            },
            crate::smt::SolveStatus::Sat => {},
        }
        let model = match crate::smt::smt_model(&opt) {
            Some(m) => m,
            None => {
                return Err(PlanError::InternalInvariant);
            },
        };
        let mut counts: Vec<Vec<i64>> = Vec::new();
        let mut i2: usize = 0;
        while i2 < vars.len()
            invariant
                0 <= i2 <= vars@.len(),
            decreases vars@.len() - i2,
        {
            let rowv = &vars[i2];
            let mut rowc: Vec<i64> = Vec::new();
            let mut j2: usize = 0;
            while j2 < rowv.len()
                invariant
                    0 <= j2 <= rowv@.len(),
                decreases rowv@.len() - j2,
            {
                let term = match crate::smt::smt_eval(&model, &rowv[j2]) {
                    Some(t) => t,
                    None => {
                        return Err(PlanError::InternalInvariant);
                    },
                };
                let c = match crate::smt::smt_int_value(&term) {
                    Some(c) => c,
                    None => {
                        return Err(PlanError::InternalInvariant);
                    },
                };
                rowc.push(c);
                j2 = j2 + 1;
            }
            counts.push(rowc);
            i2 = i2 + 1;
        }
        match size_batches(self, wishlist, &counts) {
            Ok(bs) => {
                proof {
                    assert(counts_acceptable(*self, wishlist@, counts@) && sized_ok(
                        *self,
                        wishlist@,
                        counts@,
                        bs@,
                    ));
                }
                Ok(bs)
            },
            Err(e) => Err(e),
        }
    }
}

} // verus!
