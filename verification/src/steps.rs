use crate::interval::Interval;
use crate::step_group::StepGroup;
use vstd::prelude::*;

verus! {

/// The steps a recipe takes, each with its duration, in brewing order.
/// A step that the recipe skips is `None`; the diacetyl rest is the one
/// step whose presence depends on the beer's family.
#[derive(Clone, Copy, Debug, PartialEq, Eq, Structural)]
pub struct Steps {
    pub brewing: Option<Interval>,
    pub primary: Option<Interval>,
    pub diacetyl: Option<Interval>,
    pub secondary: Option<Interval>,
    pub aging: Option<Interval>,
    pub carbonation: Option<Interval>,
}

/// The singleton or empty sequence an optional step contributes.
pub open spec fn opt_step(g: StepGroup, o: Option<Interval>) -> Seq<(StepGroup, Interval)> {
    match o {
        None => seq![],
        Some(iv) => seq![(g, iv)],
    }
}

/// Sum of the committed (upper) durations of a step sequence, in seconds.
pub open spec fn sum_upper(s: Seq<(StepGroup, Interval)>) -> int
    decreases s.len(),
{
    if s.len() == 0 {
        0
    } else {
        sum_upper(s.drop_last()) + s.last().1.spec_upper()
    }
}

/// Sum of the lower duration bounds of a step sequence, in seconds.
pub open spec fn sum_lower(s: Seq<(StepGroup, Interval)>) -> int
    decreases s.len(),
{
    if s.len() == 0 {
        0
    } else {
        sum_lower(s.drop_last()) + (s.last().1.spec_duration() - s.last().1.spec_slack())
    }
}

impl Steps {
    /// The interval of a given step, if the recipe has it.
    pub open spec fn spec_get(self, g: StepGroup) -> Option<Interval> {
        match g {
            StepGroup::Brewing => self.brewing,
            StepGroup::PrimaryFermentation => self.primary,
            StepGroup::DiacetylRest => self.diacetyl,
            StepGroup::SecondaryFermentation => self.secondary,
            StepGroup::Aging => self.aging,
            StepGroup::Carbonation => self.carbonation,
        }
    }

    /// The present steps, in brewing order.
    pub open spec fn seq_spec(self) -> Seq<(StepGroup, Interval)> {
        opt_step(StepGroup::Brewing, self.brewing)
            + opt_step(StepGroup::PrimaryFermentation, self.primary)
            + opt_step(StepGroup::DiacetylRest, self.diacetyl)
            + opt_step(StepGroup::SecondaryFermentation, self.secondary)
            + opt_step(StepGroup::Aging, self.aging)
            + opt_step(StepGroup::Carbonation, self.carbonation)
    }

    /// Builds the step list of a recipe from the six optional intervals.
    pub fn new(
        brewing: Option<Interval>,
        primary: Option<Interval>,
        diacetyl: Option<Interval>,
        secondary: Option<Interval>,
        aging: Option<Interval>,
        carbonation: Option<Interval>,
    ) -> (r: Steps)
        ensures
            r.spec_get(StepGroup::Brewing) == brewing,
            r.spec_get(StepGroup::PrimaryFermentation) == primary,
            r.spec_get(StepGroup::DiacetylRest) == diacetyl,
            r.spec_get(StepGroup::SecondaryFermentation) == secondary,
            r.spec_get(StepGroup::Aging) == aging,
            r.spec_get(StepGroup::Carbonation) == carbonation,
    {
        Steps { brewing, primary, diacetyl, secondary, aging, carbonation }
    }

    /// The interval of the given step, if present.
    pub fn get(&self, key: &StepGroup) -> (r: Option<Interval>)
        ensures
            r == self.spec_get(*key),
    {
        match key {
            StepGroup::Brewing => self.brewing,
            StepGroup::PrimaryFermentation => self.primary,
            StepGroup::DiacetylRest => self.diacetyl,
            StepGroup::SecondaryFermentation => self.secondary,
            StepGroup::Aging => self.aging,
            StepGroup::Carbonation => self.carbonation,
        }
    }

    /// Whether the recipe has a diacetyl rest.
    pub fn needs_diacetyl_rest(&self) -> (r: bool)
        ensures
            r == (self.spec_get(StepGroup::DiacetylRest) is Some),
    {
        self.diacetyl.is_some()
    }

    /// The present steps in brewing order, as a vector.
    pub fn iter(&self) -> (r: Vec<(StepGroup, Interval)>)
        ensures
            r@ == self.seq_spec(),
    {
        let mut v: Vec<(StepGroup, Interval)> = Vec::new();
        if let Some(iv) = self.brewing {
            v.push((StepGroup::Brewing, iv));
        }
        if let Some(iv) = self.primary {
            v.push((StepGroup::PrimaryFermentation, iv));
        }
        if let Some(iv) = self.diacetyl {
            v.push((StepGroup::DiacetylRest, iv));
        }
        if let Some(iv) = self.secondary {
            v.push((StepGroup::SecondaryFermentation, iv));
        }
        if let Some(iv) = self.aging {
            v.push((StepGroup::Aging, iv));
        }
        if let Some(iv) = self.carbonation {
            v.push((StepGroup::Carbonation, iv));
        }
        proof {
            assert(v@ =~= self.seq_spec());
        }
        v
    }

    /// The sum of the lower and of the upper duration bounds over all
    /// present steps: how long the whole recipe may run.
    pub fn range(&self) -> (r: (i64, i64))
        ensures
            r.0 == sum_lower(self.seq_spec()),
            r.1 == sum_upper(self.seq_spec()),
    {
        let items = self.iter();
        let n = items.len();
        let mut lo: i64 = 0;
        let mut hi: i64 = 0;
        let mut i: usize = 0;
        while i < n
            invariant
                n == items@.len() <= 6,
                0 <= i <= n,
                items@ == self.seq_spec(),
                lo == sum_lower(items@.take(i as int)),
                hi == sum_upper(items@.take(i as int)),
                -604_800 * (i as int) <= lo,
                lo <= hi <= 700_700_000 * (i as int),
            decreases n - i,
        {
            let (_g, iv) = items[i];
            let (l, h) = iv.range();
            proof {
                assert(items@.take(i as int + 1).drop_last() =~= items@.take(i as int));
                assert(items@.take(i as int + 1).last() == items@[i as int]);
            }
            lo = lo + l;
            hi = hi + h;
            i = i + 1;
        }
        proof {
            assert(items@.take(n as int) =~= items@);
        }
        (lo, hi)
    }
}

/// An explicit cursor over a recipe's steps, in brewing order.
pub struct StepIterator {
    pub items: Vec<(StepGroup, Interval)>,
    pub pos: usize,
}

impl StepIterator {
    /// The steps not yet handed out.
    pub open spec fn remaining_spec(self) -> Seq<(StepGroup, Interval)> {
        if self.pos <= self.items@.len() {
            self.items@.skip(self.pos as int)
        } else {
            seq![]
        }
    }

    /// A cursor at the first step of the recipe.
    pub fn new(steps: &Steps) -> (r: StepIterator)
        ensures
            r.remaining_spec() == steps.seq_spec(),
    {
        let items = steps.iter();
        proof {
            assert(items@.skip(0) =~= items@);
        }
        StepIterator { items, pos: 0 }
    }

    /// The next step, or none when the recipe is exhausted.
    pub fn next(&mut self) -> (r: Option<(StepGroup, Interval)>)
        ensures
            match r {
                Some(x) => old(self).remaining_spec().len() > 0
                    && x == old(self).remaining_spec()[0]
                    && final(self).remaining_spec() == old(self).remaining_spec().drop_first(),
                None => old(self).remaining_spec().len() == 0
                    && final(self).remaining_spec().len() == 0,
            },
    {
        if self.pos < self.items.len() {
            let x = self.items[self.pos];
            self.pos = self.pos + 1;
            proof {
                assert(old(self).remaining_spec()[0] == self.items@[old(self).pos as int]);
                assert(self.items@.skip(self.pos as int) =~= old(
                    self,
                ).remaining_spec().drop_first());
            }
            Some(x)
        } else {
            None
        }
    }
}

} // verus!
