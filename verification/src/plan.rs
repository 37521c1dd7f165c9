use crate::action::Action;
use crate::batchneed::BatchNeed;
use crate::error::PlanError;
use crate::factory::{suits, Factory};
use crate::interval::Interval;
use crate::sizer::{batch_ok, lemma_find_beer_at, lemma_find_beer_member, spec_find_beer};
use crate::step_group::StepGroup;
use vstd::prelude::*;

verus! {

/// Least time that two brewing steps must keep between one another, in
/// seconds: six hours, in effect about one brew per day.
pub const BREW_GAP_SECONDS: i64 = 21_600;

/// How many rounds the iterative tightener runs at most; past this the
/// returns diminish.
pub const REPEAT: usize = 15;

/// Latest admitted timestamp, in seconds since the epoch.
pub const TIME_MAX: i64 = 2_000_000_000_000;

/// One planned action of the schedule: which batch, which step, what is
/// done in which vessel, and when.
#[derive(Clone, Debug, PartialEq, Eq)]
pub struct Plan {
    pub id: usize,
    pub batch_id: usize,
    pub step_group: StepGroup,
    pub action: Action,
    pub start: i64,
    pub end: i64,
}

impl Plan {
    /// Builds one plan record.  The action's own vessel must serve the
    /// step's equipment group.
    pub fn new(
        id: usize,
        batch_id: usize,
        step_group: StepGroup,
        action: Action,
        start: i64,
        end: i64,
    ) -> (r: Plan)
        requires
            action.group_matches(step_group.spec_equipment_group()),
        ensures
            r == (Plan { id, batch_id, step_group, action, start, end }),
    {
        Plan { id, batch_id, step_group, action, start, end }
    }
}

/// The steps the factory's recipe book gives one batch.
pub open spec fn spec_batch_steps(f: Factory, b: BatchNeed) -> Seq<(StepGroup, Interval)> {
    match spec_find_beer(f.beers@, b.beer_name@) {
        None => Seq::empty(),
        Some(beer) => match beer.recipe.spec_get(b.system) {
            None => Seq::empty(),
            Some(ys) => ys.1.seq_spec(),
        },
    }
}

/// One (batch, step) slot of the scheduling problem, with everything the
/// constraints need to know about it.
#[derive(Clone, Debug)]
pub struct Slot {
    pub batch_idx: usize,
    pub step_idx: usize,
    pub group: StepGroup,
    pub dur: i64,
    pub ppt: i64,
    pub first: bool,
    pub last: bool,
    pub same_group_pair: bool,
    pub suited: Vec<usize>,
}

/// What one slot must say about its batch and step.
pub open spec fn slot_wf_at(f: Factory, batches: Seq<BatchNeed>, slots: Seq<Slot>, p: int) -> bool {
    let s = slots[p];
    let b = batches[s.batch_idx as int];
    let steps = spec_batch_steps(f, b);
    &&& s.batch_idx < batches.len()
    &&& s.step_idx < steps.len()
    &&& s.group == steps[s.step_idx as int].0
    &&& s.dur == steps[s.step_idx as int].1.spec_upper()
    &&& 0 <= s.dur <= 700_700_000
    &&& s.ppt == s.group.spec_post_process_time(b.system)
    &&& 0 < s.ppt <= 600_000_000
    &&& (s.first <==> s.step_idx == 0)
    &&& (s.last <==> (p + 1 == slots.len() || slots[p + 1].batch_idx != s.batch_idx))
    &&& (!s.first ==> p > 0 && slots[p - 1].batch_idx == s.batch_idx && slots[p - 1].step_idx + 1
        == s.step_idx)
    &&& (!s.last ==> p + 1 < slots.len() && slots[p + 1].batch_idx == s.batch_idx && slots[p
        + 1].step_idx == s.step_idx + 1)
    &&& (s.same_group_pair <==> (!s.first && steps[s.step_idx - 1].0.spec_equipment_group()
        == s.group.spec_equipment_group() && s.suited@.len() > 1))
    &&& forall|j: int|
        0 <= j < s.suited@.len() ==> (#[trigger] s.suited@[j]) < f.equipments@.len() && suits(
            f.equipments@[s.suited@[j] as int],
            b.system,
            s.group.spec_equipment_group(),
        )
    &&& forall|j1: int, j2: int| 0 <= j1 < j2 < s.suited@.len() ==> s.suited@[j1] < s.suited@[j2]
    &&& forall|k: int|
        0 <= k < f.equipments@.len() && suits(
            #[trigger] f.equipments@[k],
            b.system,
            s.group.spec_equipment_group(),
        ) ==> s.suited@.contains(k as usize)
}

/// Whether some slot of the table carries the given (batch, step) pair.
pub open spec fn slot_exists(slots: Seq<Slot>, b: int, t: int) -> bool {
    exists|p: int|
        0 <= p < slots.len() && (#[trigger] slots[p]).batch_idx == b && slots[p].step_idx == t
}

/// A well-formed slot table: each slot sound, the table complete over
/// all (batch, step) pairs, and ordered by batch then step.
pub open spec fn slots_wf(f: Factory, batches: Seq<BatchNeed>, slots: Seq<Slot>) -> bool {
    &&& forall|p: int| 0 <= p < slots.len() ==> slot_wf_at(f, batches, slots, p)
    &&& forall|b: int, t: int|
        0 <= b < batches.len() && 0 <= t < spec_batch_steps(f, batches[b]).len()
            ==> #[trigger] slot_exists(slots, b, t)
    &&& forall|p: int, q: int|
        0 <= p < q < slots.len() ==> ((#[trigger] slots[p]).batch_idx < (
        #[trigger] slots[q]).batch_idx || (slots[p].batch_idx == slots[q].batch_idx
            && slots[p].step_idx < slots[q].step_idx))
}


/// Extending a well-formed slot prefix with the next step's slot (after
/// unmarking the previous slot as last of its batch) keeps the table
/// well formed, ordered and complete.
#[verifier::rlimit(100)]
proof fn lemma_slots_extend(
    f: Factory,
    batches: Seq<BatchNeed>,
    old_slots: Seq<Slot>,
    new_slots: Seq<Slot>,
    b: int,
    t: int,
    slot: Slot,
)
    requires
        0 <= b < batches.len(),
        0 <= t < spec_batch_steps(f, batches[b]).len(),
        forall|p: int| 0 <= p < old_slots.len() ==> slot_wf_at(f, batches, old_slots, p),
        forall|p: int|
            0 <= p < old_slots.len() ==> ((#[trigger] old_slots[p]).batch_idx < b || (
            old_slots[p].batch_idx == b && old_slots[p].step_idx < t)),
        forall|p: int, q: int|
            0 <= p < q < old_slots.len() ==> ((#[trigger] old_slots[p]).batch_idx < (
            #[trigger] old_slots[q]).batch_idx || (old_slots[p].batch_idx
                == old_slots[q].batch_idx && old_slots[p].step_idx < old_slots[q].step_idx)),
        t > 0 ==> old_slots.len() > 0 && old_slots.last().batch_idx == b
            && old_slots.last().step_idx == t - 1,
        t > 0 ==> new_slots == old_slots.update(
            old_slots.len() - 1,
            Slot { last: false, ..old_slots.last() },
        ).push(slot),
        t == 0 ==> new_slots == old_slots.push(slot),
        slot.batch_idx == b,
        slot.step_idx == t,
        slot.first <==> t == 0,
        slot.last,
        ({
            let steps = spec_batch_steps(f, batches[b]);
            &&& slot.group == steps[t].0
            &&& slot.dur == steps[t].1.spec_upper()
            &&& 0 <= slot.dur <= 700_700_000
            &&& slot.ppt == slot.group.spec_post_process_time(batches[b].system)
            &&& 0 < slot.ppt <= 600_000_000
            &&& (slot.same_group_pair <==> (t > 0 && steps[t - 1].0.spec_equipment_group()
                == slot.group.spec_equipment_group() && slot.suited@.len() > 1))
        }),
        forall|j: int|
            0 <= j < slot.suited@.len() ==> (#[trigger] slot.suited@[j]) < f.equipments@.len()
                && suits(
                f.equipments@[slot.suited@[j] as int],
                batches[b].system,
                slot.group.spec_equipment_group(),
            ),
        forall|j1: int, j2: int|
            0 <= j1 < j2 < slot.suited@.len() ==> slot.suited@[j1] < slot.suited@[j2],
        forall|k: int|
            0 <= k < f.equipments@.len() && suits(
                #[trigger] f.equipments@[k],
                batches[b].system,
                slot.group.spec_equipment_group(),
            ) ==> slot.suited@.contains(k as usize),
    ensures
        new_slots.len() == old_slots.len() + 1,
        forall|p: int| 0 <= p < new_slots.len() ==> slot_wf_at(f, batches, new_slots, p),
        forall|p: int|
            0 <= p < new_slots.len() ==> ((#[trigger] new_slots[p]).batch_idx < b || (
            new_slots[p].batch_idx == b && new_slots[p].step_idx < t + 1)),
        forall|p: int, q: int|
            0 <= p < q < new_slots.len() ==> ((#[trigger] new_slots[p]).batch_idx < (
            #[trigger] new_slots[q]).batch_idx || (new_slots[p].batch_idx
                == new_slots[q].batch_idx && new_slots[p].step_idx < new_slots[q].step_idx)),
        forall|bb: int, tt: int|
            slot_exists(old_slots, bb, tt) ==> #[trigger] slot_exists(new_slots, bb, tt),
        slot_exists(new_slots, b, t),
        new_slots.last() == slot,
{
    let L = old_slots.len() as int;
    assert(new_slots[L] == slot);
    assert(slot_exists(new_slots, b, t)) by {
        assert(new_slots[L].batch_idx == b && new_slots[L].step_idx == t);
    }
    assert forall|p: int| 0 <= p < L implies (#[trigger] new_slots[p]).batch_idx
        == old_slots[p].batch_idx && new_slots[p].step_idx == old_slots[p].step_idx
        && new_slots[p].group == old_slots[p].group && new_slots[p].dur == old_slots[p].dur
        && new_slots[p].ppt == old_slots[p].ppt && new_slots[p].first == old_slots[p].first
        && new_slots[p].same_group_pair == old_slots[p].same_group_pair && new_slots[p].suited@
        == old_slots[p].suited@ by {
        if t > 0 && p == L - 1 {
            assert(new_slots[p] == Slot { last: false, ..old_slots[p] });
        } else {
            assert(new_slots[p] == old_slots[p]);
        }
    }
    assert forall|bb: int, tt: int| slot_exists(old_slots, bb, tt) implies #[trigger] slot_exists(
        new_slots,
        bb,
        tt,
    ) by {
        let p = choose|p: int|
            0 <= p < old_slots.len() && (#[trigger] old_slots[p]).batch_idx == bb
                && old_slots[p].step_idx == tt;
        assert(new_slots[p].batch_idx == bb && new_slots[p].step_idx == tt);
    }
    assert forall|p: int| 0 <= p < new_slots.len() implies slot_wf_at(
        f,
        batches,
        new_slots,
        p,
    ) by {
        if p == L {
            if t > 0 {
                assert(new_slots[L - 1].batch_idx == b && new_slots[L - 1].step_idx == t - 1);
            }
        } else {
            assert(slot_wf_at(f, batches, old_slots, p));
            if t > 0 && p == L - 1 {
                assert(!new_slots[p].last);
                assert(new_slots[p + 1].batch_idx == b && new_slots[p + 1].step_idx == t);
                assert(old_slots[p].step_idx + 1 == t);
            } else {
                assert(new_slots[p].last == old_slots[p].last);
                if p == L - 1 {
                    assert(old_slots[p].last);
                    assert(new_slots[p + 1] == slot);
                    assert(new_slots[p].batch_idx < b);
                } else {
                    assert(new_slots[p + 1].batch_idx == old_slots[p + 1].batch_idx
                        && new_slots[p + 1].step_idx == old_slots[p + 1].step_idx);
                }
            }
            if p > 0 {
                assert(new_slots[p - 1].batch_idx == old_slots[p - 1].batch_idx && new_slots[p
                    - 1].step_idx == old_slots[p - 1].step_idx);
            }
        }
    }
}

/// How many slots a batch list yields: one per step of each batch.
pub open spec fn total_steps(f: Factory, batches: Seq<BatchNeed>) -> int
    decreases batches.len(),
{
    if batches.len() == 0 {
        0
    } else {
        total_steps(f, batches.drop_last()) + spec_batch_steps(f, batches.last()).len()
    }
}

/// Builds the slot table of a scheduling run: one slot per step of each
/// batch, in batch order then brewing order.
#[verifier::loop_isolation(false)]
#[verifier::rlimit(100)]
pub fn build_slots(factory: &Factory, batches: &Vec<BatchNeed>) -> (r: Vec<Slot>)
    requires
        factory.wf(),
        forall|k: int| 0 <= k < batches@.len() ==> batch_ok(*factory, #[trigger] batches@[k]),
    ensures
        slots_wf(*factory, batches@, r@),
        r@.len() == total_steps(*factory, batches@),
{
    let mut slots: Vec<Slot> = Vec::new();
    let n = batches.len();
    let mut b: usize = 0;
    while b < n
        invariant
            0 <= b <= n,
            n == batches@.len(),
            slots@.len() == total_steps(*factory, batches@.take(b as int)),
            forall|p: int| 0 <= p < slots@.len() ==> slot_wf_at(*factory, batches@, slots@, p),
            forall|p: int| 0 <= p < slots@.len() ==> (#[trigger] slots@[p]).batch_idx < b,
            forall|bb: int, t: int|
                0 <= bb < b && 0 <= t < spec_batch_steps(*factory, batches@[bb]).len()
                    ==> #[trigger] slot_exists(slots@, bb, t),
            forall|p: int, q: int|
                0 <= p < q < slots@.len() ==> ((#[trigger] slots@[p]).batch_idx < (
                #[trigger] slots@[q]).batch_idx || (slots@[p].batch_idx == slots@[q].batch_idx
                    && slots@[p].step_idx < slots@[q].step_idx)),
        decreases n - b,
    {
        let batch = &batches[b];
        let bi = match factory.find_beer(batch.beer_name.as_str()) {
            Some(bi) => bi,
            None => {
                proof {
                    assert(batch_ok(*factory, batches@[b as int]));
                    lemma_find_beer_member(factory.beers@, batch.beer_name@);
                }
                vstd::pervasive::unreached()
            },
        };
        proof {
            lemma_find_beer_at(factory.beers@, batch.beer_name@, bi as int);
        }
        let beer = &factory.beers[bi];
        let (_y, st) = match beer.recipe.get(&batch.system) {
            Some(x) => x,
            None => {
                proof {
                    assert(batch_ok(*factory, batches@[b as int]));
                }
                vstd::pervasive::unreached()
            },
        };
        let steps = st.iter();
        let ghost stepseq = spec_batch_steps(*factory, batches@[b as int]);
        proof {
            assert(stepseq == steps@);
        }
        let m = steps.len();
        let mut t: usize = 0;
        while t < m
            invariant
                0 <= t <= m,
                m == stepseq.len() <= 6,
                steps@ == stepseq,
                batch == &batches@[b as int],
                b < n,
                slots@.len() == total_steps(*factory, batches@.take(b as int)) + t,
                forall|p: int| 0 <= p < slots@.len() ==> slot_wf_at(*factory, batches@, slots@, p),
                forall|p: int|
                    0 <= p < slots@.len() ==> ((#[trigger] slots@[p]).batch_idx < b || (
                    slots@[p].batch_idx == b && slots@[p].step_idx < t)),
                t > 0 ==> slots@.len() > 0 && slots@.last().batch_idx == b
                    && slots@.last().step_idx == t - 1,
                forall|bb: int, tt: int|
                    0 <= bb < b && 0 <= tt < spec_batch_steps(*factory, batches@[bb]).len()
                        ==> #[trigger] slot_exists(slots@, bb, tt),
                forall|tt: int| 0 <= tt < t ==> #[trigger] slot_exists(slots@, b as int, tt),
                forall|p: int, q: int|
                    0 <= p < q < slots@.len() ==> ((#[trigger] slots@[p]).batch_idx < (
                    #[trigger] slots@[q]).batch_idx || (slots@[p].batch_idx == slots@[q].batch_idx
                        && slots@[p].step_idx < slots@[q].step_idx)),
            decreases m - t,
        {
            let (group, interval) = steps[t];
            let (_lo, dur) = interval.range();
            let ppt = group.post_process_time(&batch.system);
            let eg = group.equipment_group();
            let suited = factory.suited_indices(&batch.system, &eg);
            let same_group_pair = if t > 0 {
                let (prev_group, _pi) = steps[t - 1];
                prev_group.equipment_group() == eg && suited.len() > 1
            } else {
                false
            };
            let ghost old_slots = slots@;
            // the slot before this one stops being the last of its batch
            if t > 0 {
                let li = slots.len() - 1;
                let prev = slots.remove(li);
                let patched = Slot { last: false, ..prev };
                slots.push(patched);
            }
            let ghost mid_slots = slots@;
            let slot = Slot {
                batch_idx: b,
                step_idx: t,
                group,
                dur,
                ppt,
                first: t == 0,
                last: true,
                same_group_pair,
                suited,
            };
            slots.push(slot);
            proof {
                if t > 0 {
                    assert(mid_slots =~= old_slots.update(
                        old_slots.len() - 1,
                        Slot { last: false, ..old_slots.last() },
                    ));
                    assert(slots@ == old_slots.update(
                        old_slots.len() - 1,
                        Slot { last: false, ..old_slots.last() },
                    ).push(slot));
                } else {
                    assert(slots@ == old_slots.push(slot));
                }
                assert(stepseq[t as int] == steps@[t as int]);
                lemma_slots_extend(
                    *factory,
                    batches@,
                    old_slots,
                    slots@,
                    b as int,
                    t as int,
                    slot,
                );
                assert forall|tt: int| 0 <= tt < t + 1 implies #[trigger] slot_exists(
                    slots@,
                    b as int,
                    tt,
                ) by {
                    if tt < t {
                        assert(slot_exists(old_slots, b as int, tt));
                    }
                }
                assert forall|bb: int, tt: int|
                    0 <= bb < b && 0 <= tt < spec_batch_steps(*factory, batches@[bb]).len()
                        implies #[trigger] slot_exists(slots@, bb, tt) by {
                    assert(slot_exists(old_slots, bb, tt));
                }
            }
            t = t + 1;
        }
        proof {
            assert(batches@.take(b as int + 1).drop_last() =~= batches@.take(b as int));
            assert(batches@.take(b as int + 1).last() == batches@[b as int]);
        }
        b = b + 1;
    }
    proof {
        assert(batches@.take(n as int) =~= batches@);
    }
    slots
}

/// The solver's decision for one slot: the chosen equipment, by registry
/// index, and the four timestamps: processing start and end, transfer
/// end, and the moment the vessel is clean again.
#[derive(Clone, Copy, Debug, PartialEq, Eq, Structural)]
pub struct SlotAssign {
    pub machine: usize,
    pub s1a: i64,
    pub e1a: i64,
    pub s2a: i64,
    pub s1f: i64,
}

/// The conditions one slot's assignment must meet: times in range and
/// chained exactly (processing takes the committed duration, transfer
/// and clean each take the post-process time, a non-first step starts
/// the moment its predecessor's transfer ends, a first step not before
/// the horizon), an admissible vessel, and a fresh vessel where two
/// same-group steps follow one another with a choice of machines.
pub open spec fn assign_ok_at(
    earliest: int,
    slots: Seq<Slot>,
    asg: Seq<SlotAssign>,
    p: int,
) -> bool {
    let s = slots[p];
    let a = asg[p];
    &&& 0 <= a.s1a <= TIME_MAX
    &&& a.e1a == a.s1a + s.dur
    &&& a.s2a == a.e1a + s.ppt
    &&& a.s1f == a.s2a + s.ppt
    &&& (s.first ==> a.s1a >= earliest)
    &&& (!s.first ==> p > 0 && a.s1a == asg[p - 1].s2a)
    &&& s.suited@.contains(a.machine)
    &&& (s.same_group_pair ==> p > 0 && a.machine != asg[p - 1].machine)
}

/// The exclusion conditions between two slots of different batches: on
/// the same vessel their occupancy windows must not touch, and two
/// brewing steps keep the brew gap between transfer end and next start.
pub open spec fn assign_pair_ok(slots: Seq<Slot>, asg: Seq<SlotAssign>, p: int, q: int) -> bool {
    let sp = slots[p];
    let sq = slots[q];
    let ap = asg[p];
    let aq = asg[q];
    sp.batch_idx != sq.batch_idx ==> {
        &&& (ap.machine == aq.machine ==> (ap.s1f < aq.s1a || aq.s1f < ap.s1a))
        &&& (sp.group is Brewing && sq.group is Brewing ==> (ap.s2a + BREW_GAP_SECONDS < aq.s1a
            || aq.s2a + BREW_GAP_SECONDS < ap.s1a))
    }
}

/// A valid assignment: every slot's own conditions and every pairwise
/// exclusion hold.
pub open spec fn valid_assignment(earliest: int, slots: Seq<Slot>, asg: Seq<SlotAssign>) -> bool {
    &&& asg.len() == slots.len()
    &&& forall|p: int| 0 <= p < slots.len() ==> #[trigger] assign_ok_at(earliest, slots, asg, p)
    &&& forall|p: int, q: int|
        0 <= p < slots.len() && 0 <= q < slots.len() && p != q ==> #[trigger] assign_pair_ok(
            slots,
            asg,
            p,
            q,
        )
}

/// Whether a vector of indices holds the given one.
fn contains_usize(v: &Vec<usize>, x: usize) -> (r: bool)
    ensures
        r == v@.contains(x),
{
    let n = v.len();
    let mut i: usize = 0;
    while i < n
        invariant
            n == v@.len(),
            0 <= i <= n,
            forall|j: int| 0 <= j < i ==> v@[j] != x,
        decreases n - i,
    {
        if v[i] == x {
            return true;
        }
        i = i + 1;
    }
    false
}

/// Decides whether an assignment satisfies every scheduling constraint.
#[verifier::loop_isolation(false)]
#[verifier::rlimit(50)]
pub fn check_assignment(
    slots: &Vec<Slot>,
    asg: &Vec<SlotAssign>,
    earliest: i64,
) -> (r: bool)
    requires
        forall|p: int|
            0 <= p < slots@.len() ==> 0 <= (#[trigger] slots@[p]).dur <= 700_700_000 && 0
                < slots@[p].ppt <= 600_000_000,
    ensures
        r == valid_assignment(earliest as int, slots@, asg@),
{
    let n = slots.len();
    if asg.len() != n {
        return false;
    }
    let mut p: usize = 0;
    while p < n
        invariant
            0 <= p <= n,
            n == slots@.len() == asg@.len(),
            forall|pp: int|
                0 <= pp < p ==> #[trigger] assign_ok_at(earliest as int, slots@, asg@, pp),
        decreases n - p,
    {
        let s = &slots[p];
        let a = asg[p];
        let mut ok = a.s1a >= 0 && a.s1a <= TIME_MAX && a.e1a == a.s1a + s.dur && a.s2a == a.e1a
            + s.ppt && a.s1f == a.s2a + s.ppt;
        if s.first {
            ok = ok && a.s1a >= earliest;
        } else {
            if p == 0 {
                ok = false;
            } else {
                ok = ok && a.s1a == asg[p - 1].s2a;
            }
        }
        ok = ok && contains_usize(&s.suited, a.machine);
        if s.same_group_pair {
            if p == 0 {
                ok = false;
            } else {
                ok = ok && a.machine != asg[p - 1].machine;
            }
        }
        if !ok {
            proof {
                assert(!assign_ok_at(earliest as int, slots@, asg@, p as int));
            }
            return false;
        }
        p = p + 1;
    }
    let mut p2: usize = 0;
    while p2 < n
        invariant
            0 <= p2 <= n,
            n == slots@.len() == asg@.len(),
            forall|pp: int|
                0 <= pp < n ==> #[trigger] assign_ok_at(earliest as int, slots@, asg@, pp),
            forall|pp: int, qq: int|
                0 <= pp < p2 && 0 <= qq < n && pp != qq ==> #[trigger] assign_pair_ok(
                    slots@,
                    asg@,
                    pp,
                    qq,
                ),
        decreases n - p2,
    {
        let mut q: usize = 0;
        while q < n
            invariant
                0 <= q <= n,
                p2 < n,
                n == slots@.len() == asg@.len(),
                forall|pp: int|
                    0 <= pp < n ==> #[trigger] assign_ok_at(earliest as int, slots@, asg@, pp),
                forall|qq: int|
                    0 <= qq < q && p2 as int != qq ==> #[trigger] assign_pair_ok(
                        slots@,
                        asg@,
                        p2 as int,
                        qq,
                    ),
            decreases n - q,
        {
            if q != p2 {
                let sp = &slots[p2];
                let sq = &slots[q];
                if sp.batch_idx != sq.batch_idx {
                    let ap = asg[p2];
                    let aq = asg[q];
                    proof {
                        assert(assign_ok_at(earliest as int, slots@, asg@, p2 as int));
                        assert(assign_ok_at(earliest as int, slots@, asg@, q as int));
                    }
                    if ap.machine == aq.machine {
                        if !(ap.s1f < aq.s1a || aq.s1f < ap.s1a) {
                            proof {
                                assert(!assign_pair_ok(slots@, asg@, p2 as int, q as int));
                            }
                            return false;
                        }
                    }
                    let brews = matches!(sp.group, StepGroup::Brewing) && matches!(
                        sq.group,
                        StepGroup::Brewing,
                    );
                    if brews {
                        if !(ap.s2a + BREW_GAP_SECONDS < aq.s1a || aq.s2a + BREW_GAP_SECONDS
                            < ap.s1a) {
                            proof {
                                assert(!assign_pair_ok(slots@, asg@, p2 as int, q as int));
                            }
                            return false;
                        }
                    }
                }
            }
            q = q + 1;
        }
        p2 = p2 + 1;
    }
    true
}

/// How many plan records one slot yields: process and clean always, a
/// transfer only when another step of the batch follows.
pub open spec fn rec_count(s: Slot) -> int {
    if s.last {
        2
    } else {
        3
    }
}

/// Index of the first record of slot `p` in the plan list.
pub open spec fn rec_base(slots: Seq<Slot>, p: int) -> int
    decreases p,
{
    if p <= 0 {
        0
    } else {
        rec_base(slots, p - 1) + rec_count(slots[p - 1])
    }
}

/// What the plan records of one slot look like: a process record over
/// the step's duration, then (for a non-final step) the transfer into
/// the next step's vessel, then the clean of the vessel used, each
/// record starting the moment the one before it ends.
pub open spec fn plans_match_at(
    f: Factory,
    batches: Seq<BatchNeed>,
    slots: Seq<Slot>,
    asg: Seq<SlotAssign>,
    plans: Seq<Plan>,
    p: int,
) -> bool {
    let s = slots[p];
    let a = asg[p];
    let base = rec_base(slots, p);
    let eq = f.equipments[a.machine as int];
    let bid = batches[s.batch_idx as int].id;
    &&& base + rec_count(s) <= plans.len()
    &&& plans[base] == (Plan {
        id: (base + 1) as usize,
        batch_id: bid,
        step_group: s.group,
        action: Action::Process(eq),
        start: a.s1a,
        end: a.e1a,
    })
    &&& (!s.last ==> plans[base + 1] == (Plan {
        id: (base + 2) as usize,
        batch_id: bid,
        step_group: s.group,
        action: Action::Transfer(eq, f.equipments[asg[p + 1].machine as int]),
        start: a.e1a,
        end: a.s2a,
    }) && plans[base + 2] == (Plan {
        id: (base + 3) as usize,
        batch_id: bid,
        step_group: s.group,
        action: Action::Clean(eq),
        start: a.s2a,
        end: a.s1f,
    }))
    &&& (s.last ==> plans[base + 1] == (Plan {
        id: (base + 2) as usize,
        batch_id: bid,
        step_group: s.group,
        action: Action::Clean(eq),
        start: a.s2a,
        end: a.s1f,
    }))
}

/// The whole plan list is exactly the records of all slots, in slot
/// order.
pub open spec fn plans_match(
    f: Factory,
    batches: Seq<BatchNeed>,
    slots: Seq<Slot>,
    asg: Seq<SlotAssign>,
    plans: Seq<Plan>,
) -> bool {
    &&& plans.len() == rec_base(slots, slots.len() as int)
    &&& forall|p: int|
        0 <= p < slots.len() ==> #[trigger] plans_match_at(f, batches, slots, asg, plans, p)
}

/// Record bases never decrease and stay within three records per slot.
proof fn lemma_rec_base_bounds(slots: Seq<Slot>, p: int)
    requires
        0 <= p <= slots.len(),
    ensures
        0 <= rec_base(slots, p) <= 3 * p,
    decreases p,
{
    if p > 0 {
        lemma_rec_base_bounds(slots, p - 1);
    }
}

/// Materialises the validated assignment into plan records.
#[verifier::loop_isolation(false)]
#[verifier::rlimit(100)]
pub fn build_plans(
    factory: &Factory,
    batches: &Vec<BatchNeed>,
    slots: &Vec<Slot>,
    asg: &Vec<SlotAssign>,
    Ghost(earliest): Ghost<int>,
) -> (r: Vec<Plan>)
    requires
        slots_wf(*factory, batches@, slots@),
        valid_assignment(earliest, slots@, asg@),
        slots@.len() <= 100_000_000,
    ensures
        plans_match(*factory, batches@, slots@, asg@, r@),
{
    let n = slots.len();
    let mut plans: Vec<Plan> = Vec::new();
    let mut p: usize = 0;
    while p < n
        invariant
            0 <= p <= n,
            n == slots@.len() == asg@.len(),
            plans@.len() == rec_base(slots@, p as int),
            forall|pp: int|
                0 <= pp < p ==> #[trigger] plans_match_at(
                    *factory,
                    batches@,
                    slots@,
                    asg@,
                    plans@,
                    pp,
                ),
        decreases n - p,
    {
        let s = &slots[p];
        let a = asg[p];
        proof {
            assert(assign_ok_at(earliest, slots@, asg@, p as int));
            assert(slot_wf_at(*factory, batches@, slots@, p as int));
            lemma_rec_base_bounds(slots@, p as int);
            // the chosen machine is one of the suited, hence in range
            let j = choose|j: int|
                0 <= j < s.suited@.len() && s.suited@[j] == a.machine;
            assert(s.suited@[j] < factory.equipments@.len());
        }
        let ghost old_plans = plans@;
        let eq = factory.equipments[a.machine].clone();
        let bid = batches[s.batch_idx].id;
        let id0 = plans.len();
        plans.push(
            Plan {
                id: id0 + 1,
                batch_id: bid,
                step_group: s.group,
                action: Action::Process(eq),
                start: a.s1a,
                end: a.e1a,
            },
        );
        if !s.last {
            proof {
                assert(slot_wf_at(*factory, batches@, slots@, p as int + 1));
                assert(assign_ok_at(earliest, slots@, asg@, p as int + 1));
                let s2 = slots@[p as int + 1];
                let j2 = choose|j2: int|
                    0 <= j2 < s2.suited@.len() && s2.suited@[j2] == asg@[p as int + 1].machine;
                assert(s2.suited@[j2] < factory.equipments@.len());
            }
            let eq_next = factory.equipments[asg[p + 1].machine].clone();
            let eq2 = factory.equipments[a.machine].clone();
            plans.push(
                Plan {
                    id: id0 + 2,
                    batch_id: bid,
                    step_group: s.group,
                    action: Action::Transfer(eq2, eq_next),
                    start: a.e1a,
                    end: a.s2a,
                },
            );
            let eq3 = factory.equipments[a.machine].clone();
            plans.push(
                Plan {
                    id: id0 + 3,
                    batch_id: bid,
                    step_group: s.group,
                    action: Action::Clean(eq3),
                    start: a.s2a,
                    end: a.s1f,
                },
            );
        } else {
            let eq3 = factory.equipments[a.machine].clone();
            plans.push(
                Plan {
                    id: id0 + 2,
                    batch_id: bid,
                    step_group: s.group,
                    action: Action::Clean(eq3),
                    start: a.s2a,
                    end: a.s1f,
                },
            );
        }
        proof {
            assert(plans@.len() == rec_base(slots@, p as int + 1));
            assert forall|pp: int| 0 <= pp < p + 1 implies #[trigger] plans_match_at(
                *factory,
                batches@,
                slots@,
                asg@,
                plans@,
                pp,
            ) by {
                if pp < p {
                    assert(plans_match_at(*factory, batches@, slots@, asg@, old_plans, pp));
                    lemma_rec_base_bounds(slots@, pp);
                    assert(rec_base(slots@, pp) + rec_count(slots@[pp]) <= old_plans.len());
                    assert(plans@[rec_base(slots@, pp)] == old_plans[rec_base(slots@, pp)]);
                    assert(plans@[rec_base(slots@, pp) + 1] == old_plans[rec_base(slots@, pp)
                        + 1]);
                    if !slots@[pp].last {
                        assert(plans@[rec_base(slots@, pp) + 2] == old_plans[rec_base(slots@, pp)
                            + 2]);
                    }
                } else {
                    assert(rec_base(slots@, pp) == old_plans.len());
                }
            }
        }
        p = p + 1;
    }
    plans
}

/// The latest moment at which any vessel is still tied up, and never
/// before the horizon.
pub open spec fn spec_makespan(asg: Seq<SlotAssign>, earliest: int) -> int
    decreases asg.len(),
{
    if asg.len() == 0 {
        earliest
    } else {
        let rest = spec_makespan(asg.drop_last(), earliest);
        if asg.last().s1f > rest {
            asg.last().s1f as int
        } else {
            rest
        }
    }
}

/// The makespan of an assignment, computed executably.
#[verifier::loop_isolation(false)]
fn makespan_exec(asg: &Vec<SlotAssign>, earliest: i64) -> (r: i64)
    ensures
        r == spec_makespan(asg@, earliest as int),
{
    let mut m = earliest;
    let mut p: usize = 0;
    while p < asg.len()
        invariant
            0 <= p <= asg@.len(),
            m == spec_makespan(asg@.take(p as int), earliest as int),
        decreases asg@.len() - p,
    {
        proof {
            assert(asg@.take(p as int + 1).drop_last() =~= asg@.take(p as int));
            assert(asg@.take(p as int + 1).last() == asg@[p as int]);
        }
        if asg[p].s1f > m {
            m = asg[p].s1f;
        }
        p = p + 1;
    }
    proof {
        assert(asg@.take(asg@.len() as int) =~= asg@);
    }
    m
}

/// The solver's unknowns for one slot.
struct SlotVars {
    machine: z3::ast::Int,
    s1a: z3::ast::Int,
    e1a: z3::ast::Int,
    s2a: z3::ast::Int,
    s1f: z3::ast::Int,
}

/// The term `a + k`.
fn add_const(a: &z3::ast::Int, k: i64) -> z3::ast::Int {
    let mut v: Vec<z3::ast::Int> = Vec::new();
    v.push(crate::smt::smt_int_clone(a));
    v.push(crate::smt::smt_int_val(k));
    crate::smt::smt_sum(&v)
}

/// Reads one assignment out of a solver model; a term the model cannot
/// value, or a machine number out of range, is a broken invariant.
fn extract_assignment(model: &z3::Model, vars: &Vec<SlotVars>) -> (r: Result<
    Vec<SlotAssign>,
    PlanError,
>)
    ensures
        r is Ok ==> r->Ok_0@.len() == vars@.len(),
        r is Err ==> r->Err_0 is InternalInvariant,
{
    let mut out: Vec<SlotAssign> = Vec::new();
    let mut p: usize = 0;
    while p < vars.len()
        invariant
            0 <= p <= vars@.len(),
            out@.len() == p,
        decreases vars@.len() - p,
    {
        let v = &vars[p];
        let m = match eval_i64(model, &v.machine) {
            Some(x) => x,
            None => {
                return Err(PlanError::InternalInvariant);
            },
        };
        if m < 1 || m > 1_000_000_000 {
            return Err(PlanError::InternalInvariant);
        }
        let s1a = match eval_i64(model, &v.s1a) {
            Some(x) => x,
            None => {
                return Err(PlanError::InternalInvariant);
            },
        };
        let e1a = match eval_i64(model, &v.e1a) {
            Some(x) => x,
            None => {
                return Err(PlanError::InternalInvariant);
            },
        };
        let s2a = match eval_i64(model, &v.s2a) {
            Some(x) => x,
            None => {
                return Err(PlanError::InternalInvariant);
            },
        };
        let s1f = match eval_i64(model, &v.s1f) {
            Some(x) => x,
            None => {
                return Err(PlanError::InternalInvariant);
            },
        };
        out.push(SlotAssign { machine: (m - 1) as usize, s1a, e1a, s2a, s1f });
        p = p + 1;
    }
    Ok(out)
}

/// The completed model value of an integer term, if it is a numeral
/// that fits.
fn eval_i64(model: &z3::Model, x: &z3::ast::Int) -> (r: Option<i64>) {
    match crate::smt::smt_eval(model, x) {
        Some(t) => crate::smt::smt_int_value(&t),
        None => None,
    }
}

/// Iterative tightening of a feasible schedule: repeatedly bound every
/// vessel-free time by its current value and ask the solver again,
/// keeping each answer that checks out and does not worsen the
/// makespan.  The result is always a valid assignment whose makespan is
/// no worse than the one given.
#[verifier::loop_isolation(false)]
fn tighten(
    opt: &z3::Optimize,
    slots: &Vec<Slot>,
    vars: &Vec<SlotVars>,
    best0: Vec<SlotAssign>,
    earliest: i64,
) -> (r: Vec<SlotAssign>)
    requires
        forall|p: int|
            0 <= p < slots@.len() ==> 0 <= (#[trigger] slots@[p]).dur <= 700_700_000 && 0
                < slots@[p].ppt <= 600_000_000,
        valid_assignment(earliest as int, slots@, best0@),
        vars@.len() == slots@.len(),
    ensures
        valid_assignment(earliest as int, slots@, r@),
        spec_makespan(r@, earliest as int) <= spec_makespan(best0@, earliest as int),
{
    let ghost b0 = best0@;
    let mut best = best0;
    let mut done = false;
    let mut it: usize = 0;
    while it < REPEAT && !done
        invariant
            0 <= it <= REPEAT,
            valid_assignment(earliest as int, slots@, best@),
            spec_makespan(best@, earliest as int) <= spec_makespan(b0, earliest as int),
            best@.len() == vars@.len(),
        decreases REPEAT - it,
    {
        crate::smt::smt_push(opt);
        let mut p: usize = 0;
        while p < vars.len()
            invariant
                0 <= p <= vars@.len(),
                best@.len() == vars@.len(),
            decreases vars@.len() - p,
        {
            let bound = crate::smt::smt_int_val(best[p].s1f);
            crate::smt::smt_assert(opt, &crate::smt::smt_le(&vars[p].s1f, &bound));
            p = p + 1;
        }
        match crate::smt::smt_check(opt) {
            crate::smt::SolveStatus::Sat => {
                match crate::smt::smt_model(opt) {
                    Some(model) => {
                        match extract_assignment(&model, vars) {
                            Ok(cand) => {
                                if check_assignment(slots, &cand, earliest) {
                                    let mb = makespan_exec(&best, earliest);
                                    let mc = makespan_exec(&cand, earliest);
                                    if mc <= mb {
                                        best = cand;
                                    }
                                }
                            },
                            Err(_) => {},
                        }
                    },
                    None => {
                        crate::smt::smt_pop(opt);
                        done = true;
                    },
                }
            },
            _ => {
                crate::smt::smt_pop(opt);
                done = true;
            },
        }
        it = it + 1;
    }
    best
}

/// What a successful scheduling run guarantees: some well-formed slot
/// table and some valid assignment of vessels and times exist of which
/// the returned records are the exact materialisation.
pub open spec fn scheduled_ok(
    f: Factory,
    batches: Seq<BatchNeed>,
    earliest: int,
    plans: Seq<Plan>,
) -> bool {
    exists|slots: Seq<Slot>, asg: Seq<SlotAssign>|
        slots_wf(f, batches, slots) && #[trigger] valid_assignment(earliest, slots, asg)
            && #[trigger] plans_match(f, batches, slots, asg, plans)
}

impl Plan {
    /// Schedules every step of every batch: the solver assigns each
    /// (batch, step) slot a vessel and timestamps under the resource,
    /// ordering and throughput constraints, minimising the makespan and
    /// then tightening it.  Whatever the solver answers is checked by
    /// `check_assignment` before any plan is built, so an `Ok` schedule
    /// provably satisfies every constraint.  An unsatisfiable problem
    /// surfaces as a planning failure, a solver give-up as a timeout.
    #[verifier::loop_isolation(false)]
    #[verifier::rlimit(50)]
    pub fn plan(factory: &Factory, batches: &Vec<BatchNeed>, earliest_start: i64) -> (r: Result<
        Vec<Plan>,
        PlanError,
    >)
        requires
            factory.wf(),
            forall|k: int| 0 <= k < batches@.len() ==> batch_ok(*factory, #[trigger] batches@[k]),
            0 <= earliest_start <= 1_000_000_000_000,
        ensures
            r is Ok ==> scheduled_ok(*factory, batches@, earliest_start as int, r->Ok_0@),
            r is Err ==> (r->Err_0 is PlannerInfeasible || r->Err_0 is PlannerTimeout
                || r->Err_0 is InternalInvariant),
            factory.equipments@.len() > 1_000_000_000 ==> r is Err && r->Err_0
                is InternalInvariant,
            total_steps(*factory, batches@) > 100_000_000 ==> r is Err && r->Err_0
                is InternalInvariant,
    {
        if factory.equipments.len() > 1_000_000_000 {
            return Err(PlanError::InternalInvariant);
        }
        let slots = build_slots(factory, batches);
        let n = slots.len();
        if n > 100_000_000 {
            return Err(PlanError::InternalInvariant);
        }
        let opt = crate::smt::smt_optimize();
        let horizon = crate::smt::smt_int_val(earliest_start);
        let mut vars: Vec<SlotVars> = Vec::new();
        let mut endings: Vec<z3::ast::Int> = Vec::new();
        let mut p: usize = 0;
        while p < n
            invariant
                0 <= p <= n,
                n == slots@.len(),
                vars@.len() == p,
            decreases n - p,
        {
            let s = &slots[p];
            proof {
                reveal_strlit("machine");
                reveal_strlit("started");
                reveal_strlit("stopped");
                reveal_strlit("transferred");
                reveal_strlit("cleaned");
                assert(crate::smt::nul_free("machine"@));
                assert(crate::smt::nul_free("started"@));
                assert(crate::smt::nul_free("stopped"@));
                assert(crate::smt::nul_free("transferred"@));
                assert(crate::smt::nul_free("cleaned"@));
            }
            let machine = crate::smt::smt_int_const("machine", s.batch_idx, s.step_idx);
            let s1a = crate::smt::smt_int_const("started", s.batch_idx, s.step_idx);
            let e1a = crate::smt::smt_int_const("stopped", s.batch_idx, s.step_idx);
            let s2a = crate::smt::smt_int_const("transferred", s.batch_idx, s.step_idx);
            let s1f = crate::smt::smt_int_const("cleaned", s.batch_idx, s.step_idx);
            // the machine is one of the suited vessels, by its number
            if s.suited.len() == 0 {
                crate::smt::smt_assert(&opt, &crate::smt::smt_bool_val(false));
            } else {
                let mut ors: Vec<z3::ast::Bool> = Vec::new();
                proof {
                    assert(slot_wf_at(*factory, batches@, slots@, p as int));
                }
                let mut j: usize = 0;
                while j < s.suited.len()
                    invariant
                        0 <= j <= s.suited@.len(),
                        ors@.len() == j,
                        forall|jj: int|
                            0 <= jj < s.suited@.len() ==> (#[trigger] s.suited@[jj])
                                < factory.equipments@.len(),
                        factory.equipments@.len() <= 1_000_000_000,
                    decreases s.suited@.len() - j,
                {
                    let id = (s.suited[j] as i64) + 1;
                    ors.push(crate::smt::smt_eq(&machine, &crate::smt::smt_int_val(id)));
                    j = j + 1;
                }
                crate::smt::smt_assert(&opt, &crate::smt::smt_or(&ors));
            }
            // fixed durations, transfer and clean times
            crate::smt::smt_assert(&opt, &crate::smt::smt_eq(&e1a, &add_const(&s1a, s.dur)));
            crate::smt::smt_assert(&opt, &crate::smt::smt_eq(&s2a, &add_const(&e1a, s.ppt)));
            crate::smt::smt_assert(&opt, &crate::smt::smt_eq(&s1f, &add_const(&s2a, s.ppt)));
            // a first step waits for the horizon, later steps chain exactly
            if s.first {
                crate::smt::smt_assert(&opt, &crate::smt::smt_ge(&s1a, &horizon));
            } else {
                if p > 0 {
                    let prev_s2a = crate::smt::smt_int_clone(&vars[p - 1].s2a);
                    crate::smt::smt_assert(&opt, &crate::smt::smt_eq(&s1a, &prev_s2a));
                }
            }
            // consecutive same-group steps with a choice take a fresh vessel
            if s.same_group_pair {
                if p > 0 {
                    let prev_m = crate::smt::smt_int_clone(&vars[p - 1].machine);
                    crate::smt::smt_assert(
                        &opt,
                        &crate::smt::smt_not(&crate::smt::smt_eq(&machine, &prev_m)),
                    );
                }
            }
            endings.push(crate::smt::smt_int_clone(&s1f));
            vars.push(SlotVars { machine, s1a, e1a, s2a, s1f });
            p = p + 1;
        }
        // exclusion between slots of different batches
        let mut p2: usize = 0;
        while p2 < n
            invariant
                0 <= p2 <= n,
                n == slots@.len(),
                vars@.len() == n,
            decreases n - p2,
        {
            let mut q: usize = p2 + 1;
            while q < n
                invariant
                    p2 < q <= n,
                    n == slots@.len(),
                    vars@.len() == n,
                decreases n - q,
            {
                let bp = slots[p2].batch_idx;
                let bq = slots[q].batch_idx;
                if bp != bq {
                    let mp = crate::smt::smt_int_clone(&vars[p2].machine);
                    let mq = crate::smt::smt_int_clone(&vars[q].machine);
                    let mut ds: Vec<z3::ast::Bool> = Vec::new();
                    ds.push(crate::smt::smt_not(&crate::smt::smt_eq(&mp, &mq)));
                    ds.push(crate::smt::smt_lt(&vars[p2].s1f, &vars[q].s1a));
                    ds.push(crate::smt::smt_lt(&vars[q].s1f, &vars[p2].s1a));
                    crate::smt::smt_assert(&opt, &crate::smt::smt_or(&ds));
                    let brews = matches!(slots[p2].group, StepGroup::Brewing) && matches!(
                        slots[q].group,
                        StepGroup::Brewing,
                    );
                    if brews {
                        let mut gs: Vec<z3::ast::Bool> = Vec::new();
                        gs.push(
                            crate::smt::smt_lt(
                                &add_const(&vars[p2].s2a, BREW_GAP_SECONDS),
                                &vars[q].s1a,
                            ),
                        );
                        gs.push(
                            crate::smt::smt_lt(
                                &add_const(&vars[q].s2a, BREW_GAP_SECONDS),
                                &vars[p2].s1a,
                            ),
                        );
                        crate::smt::smt_assert(&opt, &crate::smt::smt_or(&gs));
                    }
                }
                q = q + 1;
            }
            p2 = p2 + 1;
        }
        // minimise the latest vessel-free time
        proof {
            reveal_strlit("makespan");
            assert(crate::smt::nul_free("makespan"@));
        }
        let mks = crate::smt::smt_int_const("makespan", 0, 0);
        crate::smt::smt_assert(&opt, &crate::smt::smt_ge(&mks, &horizon));
        let mut k: usize = 0;
        while k < endings.len()
            invariant
                0 <= k <= endings@.len(),
            decreases endings@.len() - k,
        {
            crate::smt::smt_assert(&opt, &crate::smt::smt_ge(&mks, &endings[k]));
            k = k + 1;
        }
        crate::smt::smt_minimize(&opt, &mks);
        match crate::smt::smt_check(&opt) {
            crate::smt::SolveStatus::Unsat => {
                return Err(PlanError::PlannerInfeasible);
            },
            crate::smt::SolveStatus::Unknown => {
                let reason = match crate::smt::smt_reason_unknown(&opt) {
                    Some(s) => s,
                    None => String::new(),
                };
                return Err(PlanError::PlannerTimeout(reason));
            },
            crate::smt::SolveStatus::Sat => {},
        }
        let model = match crate::smt::smt_model(&opt) {
            Some(m) => m,
            None => {
                return Err(PlanError::InternalInvariant);
            },
        };
        let first = match extract_assignment(&model, &vars) {
            Ok(a) => a,
            Err(e) => {
                return Err(e);
            },
        };
        proof {
            assert forall|pp: int| 0 <= pp < slots@.len() implies 0 <= (
            #[trigger] slots@[pp]).dur <= 700_700_000 && 0 < slots@[pp].ppt <= 600_000_000 by {
                assert(slot_wf_at(*factory, batches@, slots@, pp));
            }
        }
        if !check_assignment(&slots, &first, earliest_start) {
            return Err(PlanError::InternalInvariant);
        }
        let best = tighten(&opt, &slots, &vars, first, earliest_start);
        let plans = build_plans(factory, batches, &slots, &best, Ghost(earliest_start as int));
        proof {
            assert(valid_assignment(earliest_start as int, slots@, best@));
            assert(plans_match(*factory, batches@, slots@, best@, plans@));
            assert(scheduled_ok(*factory, batches@, earliest_start as int, plans@)) by {
                assert(slots_wf(*factory, batches@, slots@) && valid_assignment(
                    earliest_start as int,
                    slots@,
                    best@,
                ) && plans_match(*factory, batches@, slots@, best@, plans@));
            }
        }
        Ok(plans)
    }
}

/// Plan phase completeness law: in a scheduled plan, every step of
/// every batch has exactly its own records — a process and a clean, and
/// a transfer where another step follows — at a fixed place in the
/// list, and the slots appear in batch order then brewing order.
pub proof fn lemma_plan_phase_completeness(
    f: Factory,
    batches: Seq<BatchNeed>,
    slots: Seq<Slot>,
    asg: Seq<SlotAssign>,
    plans: Seq<Plan>,
    b: int,
    t: int,
)
    requires
        slots_wf(f, batches, slots),
        plans_match(f, batches, slots, asg, plans),
        0 <= b < batches.len(),
        0 <= t < spec_batch_steps(f, batches[b]).len(),
    ensures
        exists|p: int|
            0 <= p < slots.len() && (#[trigger] slots[p]).batch_idx == b && slots[p].step_idx == t
                && plans_match_at(f, batches, slots, asg, plans, p),
{
    assert(slot_exists(slots, b, t));
    let p = choose|p: int|
        0 <= p < slots.len() && (#[trigger] slots[p]).batch_idx == b && slots[p].step_idx == t;
    assert(plans_match_at(f, batches, slots, asg, plans, p));
}

/// Temporal contract law: each step's process record spans exactly the
/// committed duration, the transfer and the clean each span exactly the
/// post-process time, adjacent records share their boundary timestamp,
/// and a later step starts the moment its predecessor's transfer ends.
pub proof fn lemma_temporal_contract(
    f: Factory,
    batches: Seq<BatchNeed>,
    slots: Seq<Slot>,
    asg: Seq<SlotAssign>,
    plans: Seq<Plan>,
    earliest: int,
    p: int,
)
    requires
        slots_wf(f, batches, slots),
        valid_assignment(earliest, slots, asg),
        plans_match(f, batches, slots, asg, plans),
        0 <= p < slots.len(),
    ensures
        ({
            let base = rec_base(slots, p);
            &&& plans[base].end - plans[base].start == slots[p].dur
            &&& !slots[p].last ==> {
                &&& plans[base + 1].start == plans[base].end
                &&& plans[base + 1].end - plans[base + 1].start == slots[p].ppt
                &&& plans[base + 2].start == plans[base + 1].end
                &&& plans[base + 2].end - plans[base + 2].start == slots[p].ppt
            }
            &&& slots[p].last ==> {
                &&& plans[base + 1].start == plans[base].end + slots[p].ppt
                &&& plans[base + 1].end - plans[base + 1].start == slots[p].ppt
            }
            &&& !slots[p].first ==> plans[base].start == asg[p - 1].s2a
        }),
{
    assert(plans_match_at(f, batches, slots, asg, plans, p));
    assert(assign_ok_at(earliest, slots, asg, p));
}

/// Equipment admissibility law: the vessel of every step's records
/// belongs to the equipment group the step requires and to the capacity
/// bucket of the step's batch.
pub proof fn lemma_equipment_admissibility(
    f: Factory,
    batches: Seq<BatchNeed>,
    slots: Seq<Slot>,
    asg: Seq<SlotAssign>,
    plans: Seq<Plan>,
    earliest: int,
    p: int,
)
    requires
        slots_wf(f, batches, slots),
        valid_assignment(earliest, slots, asg),
        plans_match(f, batches, slots, asg, plans),
        0 <= p < slots.len(),
    ensures
        ({
            let e = f.equipments[asg[p].machine as int];
            &&& asg[p].machine < f.equipments.len()
            &&& e.equipment_group == slots[p].group.spec_equipment_group()
            &&& e.capacity == batches[slots[p].batch_idx as int].system
            &&& plans[rec_base(slots, p)].action == Action::Process(e)
        }),
{
    assert(plans_match_at(f, batches, slots, asg, plans, p));
    assert(assign_ok_at(earliest, slots, asg, p));
    assert(slot_wf_at(f, batches, slots, p));
    let s = slots[p];
    let j = choose|j: int| 0 <= j < s.suited@.len() && s.suited@[j] == asg[p].machine;
    assert(s.suited@[j] < f.equipments@.len());
}

/// Mutual exclusion law: two steps of different batches put on the same
/// vessel occupy it in disjoint half-open windows; every record of a
/// step lies inside its window from processing start to clean end.
pub proof fn lemma_mutual_exclusion(
    f: Factory,
    batches: Seq<BatchNeed>,
    slots: Seq<Slot>,
    asg: Seq<SlotAssign>,
    plans: Seq<Plan>,
    earliest: int,
    p: int,
    q: int,
)
    requires
        slots_wf(f, batches, slots),
        valid_assignment(earliest, slots, asg),
        plans_match(f, batches, slots, asg, plans),
        0 <= p < slots.len(),
        0 <= q < slots.len(),
        p != q,
        slots[p].batch_idx != slots[q].batch_idx,
        asg[p].machine == asg[q].machine,
    ensures
        asg[p].s1f < asg[q].s1a || asg[q].s1f < asg[p].s1a,
        asg[p].s1a <= plans[rec_base(slots, p)].start,
        plans[rec_base(slots, p) + rec_count(slots[p]) - 1].end == asg[p].s1f,
{
    assert(assign_pair_ok(slots, asg, p, q));
    assert(assign_ok_at(earliest, slots, asg, p));
    assert(plans_match_at(f, batches, slots, asg, plans, p));
}

/// Brewing spacing law: the processing starts of two brewing steps of
/// different batches lie more than the brew gap apart.
pub proof fn lemma_brewing_spacing(
    f: Factory,
    batches: Seq<BatchNeed>,
    slots: Seq<Slot>,
    asg: Seq<SlotAssign>,
    earliest: int,
    p: int,
    q: int,
)
    requires
        slots_wf(f, batches, slots),
        valid_assignment(earliest, slots, asg),
        0 <= p < slots.len(),
        0 <= q < slots.len(),
        p != q,
        slots[p].batch_idx != slots[q].batch_idx,
        slots[p].group is Brewing,
        slots[q].group is Brewing,
    ensures
        asg[q].s1a - asg[p].s1a > BREW_GAP_SECONDS || asg[p].s1a - asg[q].s1a
            > BREW_GAP_SECONDS,
{
    assert(assign_pair_ok(slots, asg, p, q));
    assert(assign_ok_at(earliest, slots, asg, p));
    assert(assign_ok_at(earliest, slots, asg, q));
    assert(slot_wf_at(f, batches, slots, p));
    assert(slot_wf_at(f, batches, slots, q));
}

/// Horizon law: no step of any batch starts before the earliest start;
/// a later step inherits this from the first step of its batch through
/// the exact chaining.
pub proof fn lemma_horizon(
    f: Factory,
    batches: Seq<BatchNeed>,
    slots: Seq<Slot>,
    asg: Seq<SlotAssign>,
    earliest: int,
    p: int,
)
    requires
        slots_wf(f, batches, slots),
        valid_assignment(earliest, slots, asg),
        0 <= p < slots.len(),
    ensures
        asg[p].s1a >= earliest,
    decreases p,
{
    assert(assign_ok_at(earliest, slots, asg, p));
    assert(slot_wf_at(f, batches, slots, p));
    if !slots[p].first {
        lemma_horizon(f, batches, slots, asg, earliest, p - 1);
        assert(assign_ok_at(earliest, slots, asg, p - 1));
        assert(slot_wf_at(f, batches, slots, p - 1));
    }
}

} // verus!
