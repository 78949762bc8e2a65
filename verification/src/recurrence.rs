//! The recurrence engine: decides, for one plan and one "today", whether the
//! plan's per-cycle counter must reset, and performs the reset. A reset zeroes
//! `current_count` and moves `last_reset_date` to today; the lifetime counter
//! `total_completed_count` is never touched. A plan whose `last_reset_date`
//! does not parse never resets (fail-safe on malformed state).

use vstd::prelude::*;
use crate::date::{Date, sp_parse_date, parse_date, sp_same_week, same_week, valid_date};
use crate::plan::{Plan, PlanV, copy_plan};
use crate::text::str_eq;

verus! {

/// Whether the plan's cycle boundary has passed: daily cycles compare the
/// date strings, weekly cycles the Monday-started weeks, monthly cycles the
/// month and year; an unrecognized cycle, or an unparsable last reset date,
/// never resets.
pub open spec fn sp_needs_reset(p: PlanV, today_s: Seq<char>, td: Date) -> bool {
    match sp_parse_date(p.last_reset_date) {
        None => false,
        Some(last) => if p.repeat_cycle == "daily"@ {
            today_s != p.last_reset_date
        } else if p.repeat_cycle == "weekly"@ {
            !sp_same_week(td, last)
        } else if p.repeat_cycle == "monthly"@ {
            td.m != last.m || td.y != last.y
        } else {
            false
        },
    }
}

/// The plan after one refresh step: reset when the boundary has passed,
/// unchanged otherwise.
pub open spec fn sp_refresh_plan(p: PlanV, today_s: Seq<char>, td: Date) -> PlanV {
    if sp_needs_reset(p, today_s, td) {
        PlanV { current_count: 0, last_reset_date: today_s, ..p }
    } else {
        p
    }
}

/// One refresh step, computed.
pub fn refresh_plan(p: &Plan, today: &String, td: Date) -> (r: Plan)
    requires
        sp_parse_date(today@) == Some(td),
        valid_date(td),
    ensures
        r@ == sp_refresh_plan(p@, today@, td),
{
    match parse_date(p.last_reset_date.as_str()) {
        None => copy_plan(p),
        Some(last) => {
            let needs: bool = if str_eq(p.repeat_cycle.as_str(), "daily") {
                !p.last_reset_date.eq(today)
            } else if str_eq(p.repeat_cycle.as_str(), "weekly") {
                !same_week(td, last)
            } else if str_eq(p.repeat_cycle.as_str(), "monthly") {
                td.m != last.m || td.y != last.y
            } else {
                false
            };
            if needs {
                let mut c = copy_plan(p);
                c.current_count = 0;
                c.last_reset_date = today.clone();
                c
            } else {
                copy_plan(p)
            }
        },
    }
}

/// The reset is idempotent within one day: refreshing a plan twice with the
/// same "today" changes nothing beyond the first refresh.
pub proof fn lemma_refresh_idempotent(p: PlanV, today_s: Seq<char>, td: Date)
    requires
        sp_parse_date(today_s) == Some(td),
    ensures
        sp_refresh_plan(sp_refresh_plan(p, today_s, td), today_s, td) == sp_refresh_plan(
            p,
            today_s,
            td,
        ),
{
    let q = sp_refresh_plan(p, today_s, td);
    if sp_needs_reset(p, today_s, td) {
        assert(q.last_reset_date == today_s);
        assert(!sp_needs_reset(q, today_s, td));
    }
}

/// A reset never touches the lifetime counter, the identity, or any field
/// other than the cycle counter and the reset date.
pub proof fn lemma_refresh_preserves_identity(p: PlanV, today_s: Seq<char>, td: Date)
    ensures
        sp_refresh_plan(p, today_s, td).id == p.id,
        sp_refresh_plan(p, today_s, td).total_completed_count == p.total_completed_count,
        sp_refresh_plan(p, today_s, td).title == p.title,
        sp_refresh_plan(p, today_s, td).cycle_target_count == p.cycle_target_count,
{
}

} // verus!
