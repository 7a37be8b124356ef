//! Daily visits and check-ins: how the counters and streaks move, and the
//! inputs on which a rewards script is tried before it is accepted.
use vstd::prelude::*;

verus! {

/// What a rewards script grants: credit and coins.
#[derive(PartialEq, Eq, Structural, Debug, Clone, Copy)]
pub struct LoginRewards {
    pub credit: i32,
    pub coins: i32,
}

/// A counter of days: the last day counted (days since the Unix epoch), the
/// number of days counted, and the length of the current run of consecutive
/// days.
#[derive(PartialEq, Eq, Structural, Debug, Clone, Copy)]
pub struct DayCounter {
    pub last_date: i64,
    pub days: i64,
    pub continuous_days: i64,
}

/// The counter once `today` is counted: one more day, and the run goes on
/// when the last day counted was yesterday, else starts again at one.
pub open spec fn count_day_spec(c: DayCounter, today: i64) -> DayCounter {
    DayCounter {
        last_date: today,
        days: (c.days + 1) as i64,
        continuous_days: if c.last_date + 1 == today {
            (c.continuous_days + 1) as i64
        } else {
            1
        },
    }
}

/// Counts `today` on the counter (see `count_day_spec`).
pub fn count_day(c: DayCounter, today: i64) -> (r: DayCounter)
    requires
        c.last_date < i64::MAX,
        c.days < i64::MAX,
        c.continuous_days < i64::MAX,
    ensures
        r == count_day_spec(c, today),
{
    let continuous_days = if c.last_date + 1 == today {
        c.continuous_days + 1
    } else {
        1
    };
    DayCounter { last_date: today, days: c.days + 1, continuous_days }
}

/// A visit is counted once a day: when the day of the last visit that the
/// session knows of is before today.
pub fn visit_is_new(session_last_visit: i64, today: i64) -> (b: bool)
    ensures
        b == (session_last_visit < today),
{
    session_last_visit < today
}

/// A visit of a signed-in member: the first one of the day that the session
/// knows of counts the day (and a login reward is then asked for); any other
/// leaves the counter as it is (`None`).
pub fn record_visit(session_last_visit: i64, c: DayCounter, today: i64) -> (r: Option<DayCounter>)
    requires
        c.last_date < i64::MAX,
        c.days < i64::MAX,
        c.continuous_days < i64::MAX,
    ensures
        r == (if session_last_visit < today {
            Some(count_day_spec(c, today))
        } else {
            None::<DayCounter>
        }),
{
    if visit_is_new(session_last_visit, today) {
        Some(count_day(c, today))
    } else {
        None
    }
}

/// Why a check-in is refused.
#[derive(PartialEq, Eq, Structural, Debug, Clone, Copy)]
pub enum CheckInRefusal {
    /// The member checked in today already.
    AlreadyCheckedIn,
}

/// A check-in: refused on a day already checked in, else counted.
pub open spec fn check_in_spec(c: DayCounter, today: i64) -> Result<DayCounter, CheckInRefusal> {
    if c.last_date == today {
        Err(CheckInRefusal::AlreadyCheckedIn)
    } else {
        Ok(count_day_spec(c, today))
    }
}

/// Checks in for `today` (see `check_in_spec`).
pub fn check_in(c: DayCounter, today: i64) -> (r: Result<DayCounter, CheckInRefusal>)
    requires
        c.last_date < i64::MAX,
        c.days < i64::MAX,
        c.continuous_days < i64::MAX,
    ensures
        r == check_in_spec(c, today),
{
    if c.last_date == today {
        return Err(CheckInRefusal::AlreadyCheckedIn);
    }
    Ok(count_day(c, today))
}

/// Counting days keeps the run no longer than the count and never below one;
/// a day after the last one lengthens the run, any other day starts it again.
/// A check-in that succeeds makes a second one on the same day fail.
pub proof fn day_counter_laws(c: DayCounter, today: i64)
    requires
        1 <= c.continuous_days <= c.days,
        c.days < i64::MAX,
    ensures
        1 <= count_day_spec(c, today).continuous_days <= count_day_spec(c, today).days,
        count_day_spec(c, today).days == c.days + 1,
        c.last_date + 1 == today ==> count_day_spec(c, today).continuous_days == c.continuous_days
            + 1,
        c.last_date + 1 != today ==> count_day_spec(c, today).continuous_days == 1,
        check_in_spec(c, today) matches Ok(d) ==> check_in_spec(d, today) == Err::<
            DayCounter,
            CheckInRefusal,
        >(CheckInRefusal::AlreadyCheckedIn),
        c.last_date == today ==> check_in_spec(c, today) is Err,
{
}

/// The fixed inputs on which a rewards script is tried before it is used:
/// days counted, run length, and the last date.
pub open spec fn fixed_validation_cases() -> Seq<(i32, i32, Seq<char>)> {
    seq![
        (1i32, 1i32, "2026-01-01"@),
        (7i32, 7i32, "2026-01-07"@),
        (14i32, 14i32, "2026-01-14"@),
        (21i32, 21i32, "2026-01-21"@),
        (28i32, 28i32, "2026-01-28"@),
        (30i32, 30i32, "2026-01-30"@),
        (60i32, 60i32, "2026-03-01"@),
        (100i32, 10i32, "2026-04-10"@),
        (365i32, 365i32, "2027-01-01"@),
        (1000i32, 1i32, "2028-01-01"@),
        (0i32, 0i32, "2026-01-01"@),
        (-1i32, -1i32, "2026-01-01"@),
    ]
}

/// The `i`-th generated input (for `i` from 1 to 50): `(i * 17) % 1000` days
/// and a run of `(i * 7) % (days + 1)`, on `2026-01-01`.
pub open spec fn generated_case(i: int) -> (i32, i32) {
    let days = (i * 17) % 1000;
    ((days) as i32, ((i * 7) % (days + 1)) as i32)
}

/// The inputs on which a rewards script is tried.
pub fn validation_cases() -> (r: Vec<(i32, i32, &'static str)>)
    ensures
        r@.len() == 62,
        forall|k: int|
            0 <= k < 12 ==> (#[trigger] r@[k]).0 == fixed_validation_cases()[k].0 && r@[k].1
                == fixed_validation_cases()[k].1 && r@[k].2@ == fixed_validation_cases()[k].2,
        forall|k: int|
            12 <= k < 62 ==> (#[trigger] r@[k]).0 == generated_case(k - 11).0 && r@[k].1
                == generated_case(k - 11).1 && r@[k].2@ == "2026-01-01"@,
{
    let mut v: Vec<(i32, i32, &'static str)> = vec![
        (1, 1, "2026-01-01"),
        (7, 7, "2026-01-07"),
        (14, 14, "2026-01-14"),
        (21, 21, "2026-01-21"),
        (28, 28, "2026-01-28"),
        (30, 30, "2026-01-30"),
        (60, 60, "2026-03-01"),
        (100, 10, "2026-04-10"),
        (365, 365, "2027-01-01"),
        (1000, 1, "2028-01-01"),
        (0, 0, "2026-01-01"),
        (-1, -1, "2026-01-01"),
    ];
    let ghost fixed = v@;
    let mut i: i32 = 1;
    while i <= 50
        invariant
            1 <= i <= 51,
            v@.len() == 11 + i,
            v@.subrange(0, 12) == fixed,
            forall|k: int|
                12 <= k < v@.len() ==> (#[trigger] v@[k]).0 == generated_case(k - 11).0 && v@[k].1
                    == generated_case(k - 11).1 && v@[k].2@ == "2026-01-01"@,
        decreases 51 - i,
    {
        let days: i32 = (i * 17) % 1000;
        let continuous: i32 = (i * 7) % (days + 1);
        v.push((days, continuous, "2026-01-01"));
        proof {
            assert(v@.subrange(0, 12) =~= fixed);
        }
        i = i + 1;
    }
    proof {
        assert(forall|k: int| 0 <= k < 12 ==> v@[k] == fixed[k]) by {
            assert forall|k: int| 0 <= k < 12 implies v@[k] == fixed[k] by {
                assert(v@.subrange(0, 12)[k] == v@[k]);
            }
        }
    }
    v
}

} // verus!
