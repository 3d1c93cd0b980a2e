use vstd::prelude::*;

verus! {

/// How many log lines one day produced. Days are counted as whole days
/// since the epoch.
#[derive(Clone, Copy, PartialEq, Eq, Structural, Debug)]
pub struct DailyLogCount {
    pub day: i64,
    pub count: i64,
}

/// The count recorded for a day, or zero where none was; the first record
/// for the day wins, as in the grouped rows the store hands back.
pub open spec fn spec_count_for(raw: Seq<(i64, i64)>, day: i64) -> i64
    decreases raw.len(),
{
    if raw.len() == 0 {
        0
    } else if raw.first().0 == day {
        raw.first().1
    } else {
        spec_count_for(raw.drop_first(), day)
    }
}

fn count_for(raw: &Vec<(i64, i64)>, day: i64) -> (r: i64)
    ensures
        r == spec_count_for(raw@, day),
{
    let mut i: usize = 0;
    proof {
        assert(raw@.skip(0) =~= raw@);
    }
    while i < raw.len()
        invariant
            i <= raw@.len(),
            spec_count_for(raw@, day) == spec_count_for(raw@.skip(i as int), day),
        decreases raw@.len() - i,
    {
        let (d, c) = raw[i];
        proof {
            assert(raw@.skip(i as int).first() == raw@[i as int]);
            assert(raw@.skip(i as int).drop_first() =~= raw@.skip(i + 1));
        }
        if d == day {
            return c;
        }
        i += 1;
    }
    proof {
        assert(raw@.skip(raw@.len() as int).len() == 0);
    }
    0
}

/// The chart data for the past week: one entry per day, oldest first and
/// ending with today, each carrying the recorded count for that day or
/// zero where the store reported none.
pub fn fill_daily_counts(raw: &Vec<(i64, i64)>, today: i64) -> (r: Vec<DailyLogCount>)
    requires
        today >= 6,
    ensures
        r@.len() == 7,
        forall|i: int| 0 <= i < 7 ==> (#[trigger] r@[i]).day == today - 6 + i,
        forall|i: int| 0 <= i < 7 ==> (#[trigger] r@[i]).count == spec_count_for(
            raw@,
            (today - 6 + i) as i64,
        ),
{
    let mut r: Vec<DailyLogCount> = Vec::new();
    let mut d: usize = 0;
    while d < 7
        invariant
            d <= 7,
            today >= 6,
            r@.len() == d,
            forall|i: int| 0 <= i < d ==> (#[trigger] r@[i]).day == today - 6 + i,
            forall|i: int| 0 <= i < d ==> (#[trigger] r@[i]).count == spec_count_for(
                raw@,
                (today - 6 + i) as i64,
            ),
        decreases 7 - d,
    {
        let day = today - 6 + (d as i64);
        let count = count_for(raw, day);
        r.push(DailyLogCount { day, count });
        d += 1;
    }
    r
}

} // verus!
