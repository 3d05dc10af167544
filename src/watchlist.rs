use vstd::prelude::*;

use crate::program_monitor::{TimeOfDay, TimeSlice};

verus! {

/// Milliseconds between two sweeps of the process list, where the
/// configuration gives none.
pub fn default_delay() -> (r: u64)
    ensures
        r == 500,
{
    500
}

/// Whether `now` lies in one of `slices`.
pub open spec fn in_any_slice(slices: Seq<TimeSlice>, now: TimeOfDay) -> bool {
    exists|i: int| 0 <= i < slices.len() && (#[trigger] slices[i]).spec_contains(now)
}

/// Whether a watched program is to be stopped at `now`. A blocklisted program
/// is stopped inside its windows; an allowlisted one outside them.
pub fn should_kill(slices: &Vec<TimeSlice>, black_list: bool, now: &TimeOfDay) -> (r: bool)
    ensures
        r == (in_any_slice(slices@, *now) != !black_list),
{
    let mut inside = false;
    let mut i: usize = 0;
    while i < slices.len()
        invariant
            i <= slices@.len(),
            inside == exists|j: int| 0 <= j < i && (#[trigger] slices@[j]).spec_contains(*now),
        decreases slices.len() - i,
    {
        if slices[i].contains(now) {
            inside = true;
        }
        i += 1;
    }
    inside != !black_list
}

} // verus!
