use crate::strutil::str_eq;
use vstd::prelude::*;

verus! {

/// Slack added around an hour count, in minutes.
pub const DELTA_FOR_HOURS_IN_MINUTES: i64 = 30;

/// Slack added around a day count, in hours.
pub const DELTA_FOR_DAYS_IN_HOURS: i64 = 8;

/// Slack added around a week count, in days.
pub const DELTA_FOR_WEEKS_IN_DAYS: i64 = 4;

/// Slack added around a month count, in days.
pub const DELTA_FOR_MONTHS_IN_DAYS: i64 = 7;

/// A nominal brewing duration: a count of hours, days, weeks or months.
#[derive(Clone, Copy, Debug, PartialEq, Eq, Structural)]
pub enum Interval {
    Hours(u8),
    Days(u8),
    Weeks(u8),
    Months(u8),
}

impl Interval {
    /// The nominal length in seconds; a week is 7 days, a month 30.
    pub open spec fn spec_duration(self) -> int {
        match self {
            Interval::Hours(x) => x * 3600,
            Interval::Days(x) => x * 86400,
            Interval::Weeks(x) => x * 7 * 86400,
            Interval::Months(x) => x * 30 * 86400,
        }
    }

    /// The unit-dependent slack in seconds.
    pub open spec fn spec_slack(self) -> int {
        match self {
            Interval::Hours(_) => DELTA_FOR_HOURS_IN_MINUTES * 60,
            Interval::Days(_) => DELTA_FOR_DAYS_IN_HOURS * 3600,
            Interval::Weeks(_) => DELTA_FOR_WEEKS_IN_DAYS * 86400,
            Interval::Months(_) => DELTA_FOR_MONTHS_IN_DAYS * 86400,
        }
    }

    /// The committed (upper) duration: nominal length plus slack.
    pub open spec fn spec_upper(self) -> int {
        self.spec_duration() + self.spec_slack()
    }

    /// The nominal duration in seconds.
    pub fn duration(&self) -> (r: i64)
        ensures
            r == self.spec_duration(),
            0 <= r <= 700_000_000,
    {
        match self {
            Interval::Hours(x) => (*x as i64) * 3600,
            Interval::Days(x) => (*x as i64) * 86400,
            Interval::Weeks(x) => (*x as i64) * 7 * 86400,
            Interval::Months(x) => (*x as i64) * 30 * 86400,
        }
    }

    /// The tolerated band around the nominal duration: (lower, upper)
    /// seconds.  The scheduler commits to the upper bound.
    pub fn range(&self) -> (r: (i64, i64))
        ensures
            r.0 == self.spec_duration() - self.spec_slack(),
            r.1 == self.spec_upper(),
            self.spec_duration() <= r.1 <= 700_700_000,
            -604_800 <= r.0 <= r.1,
    {
        let d = self.duration();
        let delta: i64 = match self {
            Interval::Hours(_) => DELTA_FOR_HOURS_IN_MINUTES * 60,
            Interval::Days(_) => DELTA_FOR_DAYS_IN_HOURS * 3600,
            Interval::Weeks(_) => DELTA_FOR_WEEKS_IN_DAYS * 86400,
            Interval::Months(_) => DELTA_FOR_MONTHS_IN_DAYS * 86400,
        };
        (d - delta, d + delta)
    }
}

/// Value of an ascii digit, or none.
pub open spec fn spec_digit_val(c: char) -> Option<int> {
    if '0' <= c <= '9' {
        Some(c as int - '0' as int)
    } else {
        None
    }
}

/// The number that a nonempty all-digit sequence denotes, reading left to
/// right, or none if a character is no digit.
pub open spec fn spec_digits_val(s: Seq<char>) -> Option<int>
    decreases s.len(),
{
    if s.len() == 0 {
        None
    } else if s.len() == 1 {
        spec_digit_val(s[0])
    } else {
        match spec_digits_val(s.drop_last()) {
            None => None,
            Some(h) => match spec_digit_val(s.last()) {
                None => None,
                Some(d) => Some(h * 10 + d),
            },
        }
    }
}

/// Reads a nonempty decimal digit string as a number, refusing anything
/// that is not a digit and any value of 10^12 or more.
pub fn parse_digits(s: &str) -> (r: Option<u64>)
    ensures
        match r {
            Some(v) => spec_digits_val(s@) == Some(v as int) && v < 1_000_000_000_000u64,
            None => spec_digits_val(s@) is None
                || spec_digits_val(s@).unwrap() >= 1_000_000_000_000,
        },
{
    let len = s.unicode_len();
    if len == 0 {
        return None;
    }
    let mut acc: u64 = 0;
    let mut i: usize = 0;
    while i < len
        invariant
            0 < len == s@.len(),
            0 <= i <= len,
            i > 0 ==> spec_digits_val(s@.take(i as int)) == Some(acc as int),
            i == 0 ==> acc == 0,
            acc < 1_000_000_000_000u64,
        decreases len - i,
    {
        let c = s.get_char(i);
        let u = c as u32;
        if u < 48 || u > 57 {
            proof {
                assert(spec_digit_val(s@[i as int]) is None);
                lemma_digits_prefix_none(s@, i as int);
            }
            return None;
        }
        if acc >= 100_000_000_000u64 {
            proof {
                lemma_digits_prefix_big(s@, i as int, acc as int);
            }
            return None;
        }
        let d: u64 = (u - 48) as u64;
        proof {
            assert(s@.take(i as int + 1).drop_last() =~= s@.take(i as int));
            assert(s@.take(i as int + 1).last() == s@[i as int]);
            assert(spec_digit_val(s@[i as int]) == Some(d as int));
        }
        acc = acc * 10 + d;
        i = i + 1;
    }
    proof {
        assert(s@.take(len as int) =~= s@);
    }
    Some(acc)
}

/// If a character of the sequence is no digit, the whole sequence denotes
/// no number.
proof fn lemma_digits_prefix_none(s: Seq<char>, i: int)
    requires
        0 <= i < s.len(),
        spec_digit_val(s[i]) is None,
    ensures
        spec_digits_val(s) is None,
    decreases s.len(),
{
    if s.len() > 0 {
        if i == s.len() - 1 {
            if s.len() > 1 {
            }
        } else {
            lemma_digits_prefix_none(s.drop_last(), i);
        }
    }
}

/// A digit string one of whose proper prefixes already denotes 10^11 or
/// more denotes, as a whole, 10^12 or more (or nothing at all).
proof fn lemma_digits_prefix_big(s: Seq<char>, i: int, acc: int)
    requires
        0 < i < s.len(),
        spec_digits_val(s.take(i)) == Some(acc),
        acc >= 100_000_000_000,
    ensures
        spec_digits_val(s) is None || spec_digits_val(s).unwrap() >= 1_000_000_000_000,
    decreases s.len() - i,
{
    let t = s.take(i + 1);
    assert(t.drop_last() =~= s.take(i));
    match spec_digit_val(s[i]) {
        None => {
            lemma_digits_prefix_none(s, i);
        },
        Some(d) => {
            assert(spec_digits_val(t) == Some(acc * 10 + d));
            if i + 1 == s.len() {
                assert(t =~= s);
            } else {
                lemma_digits_prefix_big(s, i + 1, acc * 10 + d);
            }
        },
    }
}

impl Interval {
    pub open spec fn spec_lookup(self) -> Seq<char> {
        match self {
            Interval::Hours(x) => crate::strutil::spec_dec(x as int) + "h"@,
            Interval::Days(x) => crate::strutil::spec_dec(x as int) + "d"@,
            Interval::Weeks(x) => crate::strutil::spec_dec(x as int) + "w"@,
            Interval::Months(x) => crate::strutil::spec_dec(x as int) + "m"@,
        }
    }

    /// The display token of the interval: its count and unit letter.
    pub fn lookup(&self) -> (r: String)
        ensures
            r@ == self.spec_lookup(),
    {
        match self {
            Interval::Hours(x) => crate::strutil::u64_dec(*x as u64).concat("h"),
            Interval::Days(x) => crate::strutil::u64_dec(*x as u64).concat("d"),
            Interval::Weeks(x) => crate::strutil::u64_dec(*x as u64).concat("w"),
            Interval::Months(x) => crate::strutil::u64_dec(*x as u64).concat("m"),
        }
    }

    pub open spec fn spec_parse(s: Seq<char>) -> Option<Interval> {
        if s.len() < 2 {
            None
        } else {
            match spec_digits_val(s.drop_last()) {
                None => None,
                Some(v) => if 0 <= v <= 255 {
                    if s.last() == 'h' {
                        Some(Interval::Hours(v as u8))
                    } else if s.last() == 'd' {
                        Some(Interval::Days(v as u8))
                    } else if s.last() == 'w' {
                        Some(Interval::Weeks(v as u8))
                    } else if s.last() == 'm' {
                        Some(Interval::Months(v as u8))
                    } else {
                        None
                    }
                } else {
                    None
                },
            }
        }
    }

    /// Reads a duration token: a count and a one-letter unit, as in `8h`,
    /// `3d`, `2w` or `1m`.  Counts above 255 are refused.
    pub fn parse(s: &str) -> (r: Option<Interval>)
        ensures
            r == Self::spec_parse(s@),
    {
        let len = s.unicode_len();
        if len < 2 {
            return None;
        }
        let head = s.substring_char(0, len - 1);
        let unit = s.get_char(len - 1);
        proof {
            assert(s@.drop_last() =~= s@.subrange(0, len as int - 1));
        }
        let v = match parse_digits(head) {
            None => {
                return None;
            },
            Some(v) => v,
        };
        if v > 255 {
            return None;
        }
        let c = v as u8;
        if unit == 'h' {
            Some(Interval::Hours(c))
        } else if unit == 'd' {
            Some(Interval::Days(c))
        } else if unit == 'w' {
            Some(Interval::Weeks(c))
        } else if unit == 'm' {
            Some(Interval::Months(c))
        } else {
            None
        }
    }
}

impl core::str::FromStr for Interval {
    type Err = ();

    fn from_str(s: &str) -> Result<Interval, ()> {
        match Interval::parse(s) {
            Some(iv) => Ok(iv),
            None => Err(()),
        }
    }
}

} // verus!
