//! The season's schedule and, for each date, the betting data of its games.

use vstd::prelude::*;

use crate::json::Json;

verus! {

/// Polls the schedule of the current season.
pub struct PollSchedule;

impl PollSchedule {
    pub fn interval_secs() -> (r: u64)
        ensures
            r == 120,
    {
        120
    }
}

/// The betting data of every hour, one hour after another.
pub open spec fn spec_flatten(hours: Seq<Vec<Json>>) -> Seq<Json>
    decreases hours.len(),
{
    if hours.len() == 0 {
        seq![]
    } else {
        spec_flatten(hours.drop_last()) + hours.last()@
    }
}

/// The betting data listed by each hour of a date's schedule, in order.
pub fn bet_data_values(hours: Vec<Vec<Json>>) -> (r: Vec<Json>)
    ensures
        r@ == spec_flatten(hours@),
{
    let ghost all = hours@;
    let n = hours.len();
    assert(all.len() == n);
    let mut r: Vec<Json> = Vec::new();
    let mut rest = hours;
    let mut k: usize = 0;
    while rest.len() > 0
        invariant
            all.len() <= usize::MAX,
            k + rest@.len() == all.len(),
            rest@ == all.subrange(k as int, all.len() as int),
            r@ == spec_flatten(all.subrange(0, k as int)),
        decreases rest@.len(),
    {
        let mut hour = rest.remove(0);
        assert(hour == all[k as int]);
        let ghost prefix = all.subrange(0, k as int + 1);
        assert(prefix.drop_last() =~= all.subrange(0, k as int));
        let ghost before = r@;
        r.append(&mut hour);
        assert(r@ =~= before + all[k as int]@);
        k = k + 1;
        assert(rest@ =~= all.subrange(k as int, all.len() as int));
    }
    assert(all.subrange(0, all.len() as int) =~= all);
    r
}

} // verus!
