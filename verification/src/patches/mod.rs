//! Patch-specific timing tables: one-off game events and timings that recur
//! every minute.

pub mod v7_41;

use crate::events::EventDef;
use vstd::prelude::*;

verus! {

/// A timing that recurs every game minute (pulls at :15 and :45, a stack at
/// :53).
#[derive(Clone)]
pub struct RecurringTiming {
    pub name: &'static str,
    pub icon_file: &'static str,
    /// Seconds within each minute at which the timing falls.
    pub targets: Vec<i64>,
    /// A countdown is shown this many seconds before each target.
    pub warn_window: i64,
    /// How many seconds the "NOW!" window lasts around a target.
    pub active_window: i64,
}

/// The timing tables of one game patch.
pub trait Patch {
    fn version(&self) -> &'static str;

    fn events(&self) -> Vec<EventDef>;

    fn recurring_timings(&self) -> Vec<RecurringTiming>;
}

/// The times `start`, `start + step`, ... up to and including `end`.
pub open spec fn stepped(start: int, end: int, step: int) -> Seq<i64>
    decreases (if start > end { 0 } else { end - start + 1 }),
    when step > 0
{
    if start > end {
        Seq::<i64>::empty()
    } else {
        seq![start as i64] + stepped(start + step, end, step)
    }
}

/// Every time of `stepped(start, end, step)` lies in `[start, end]`.
pub proof fn law_stepped_within(start: int, end: int, step: int, k: int)
    requires
        step > 0,
        i64::MIN <= start,
        end <= i64::MAX,
        0 <= k < stepped(start, end, step).len(),
    ensures
        start <= stepped(start, end, step)[k] <= end,
    decreases (if start > end { 0 } else { end - start + 1 }),
{
    if start <= end {
        let rest = stepped(start + step, end, step);
        assert(stepped(start, end, step) == seq![start as i64] + rest);
        if k > 0 {
            law_stepped_within(start + step, end, step, k - 1);
            assert(stepped(start, end, step)[k] == rest[k - 1]);
        }
    }
}

/// Collects `start..=end` in steps of `step`.
pub fn stepped_times(start: i64, end: i64, step: i64) -> (r: Vec<i64>)
    requires
        step > 0,
    ensures
        r@ == stepped(start as int, end as int, step as int),
{
    let mut v: Vec<i64> = Vec::new();
    if start > end {
        return v;
    }
    let mut cur = start;
    loop
        invariant_except_break
            step > 0,
            cur <= end,
            v@ + stepped(cur as int, end as int, step as int) == stepped(
                start as int,
                end as int,
                step as int,
            ),
        ensures
            v@ == stepped(start as int, end as int, step as int),
        decreases end - cur,
    {
        let ghost old_v = v@;
        v.push(cur);
        assert(stepped(cur as int, end as int, step as int) == seq![cur] + stepped(
            cur + step,
            end as int,
            step as int,
        ));
        assert(old_v + stepped(cur as int, end as int, step as int) == v@ + stepped(
            cur + step,
            end as int,
            step as int,
        ));
        match cur.checked_add(step) {
            Some(next) => {
                if next > end {
                    assert(v@ + Seq::<i64>::empty() == v@);
                    break;
                }
                cur = next;
            },
            None => {
                assert(v@ + Seq::<i64>::empty() == v@);
                break;
            },
        }
    }
    v
}

/// The patch whose tables the overlay uses: 7.41. (Returned as its own type,
/// which has a single value, so that callers know which tables they get.)
pub fn latest() -> (p: v7_41::Patch741) {
    v7_41::Patch741
}

} // verus!
