//! The recurring-plan entity, its mathematical view, and its persisted form:
//! a record in the plan store's JSON-style array file, with the same
//! write-then-read-back guarantee as the task file.

use vstd::prelude::*;
use crate::codec::{
    enc_string, enc_bool, enc_i32, enc_opt_i32, enc_arr_i32, sp_field_str, sp_field_bool,
    sp_field_i32, sp_field_opt_i32, sp_field_arr, sp_expect, prefix_at, lemma_split,
    lemma_field_str_rt, lemma_field_bool_rt, lemma_field_i32_rt, lemma_field_opt_i32_rt,
    lemma_field_arr_rt, parse_field_str, parse_field_bool, parse_field_i32, parse_field_opt_i32,
    parse_field_arr, expect_lit, push_quoted, push_bool, push_i32, push_opt_i32, push_arr_i32,
};
use crate::text::push_char;

verus! {

/// A recurring plan. `current_count` is the progress within the current
/// cycle; `total_completed_count` is a lifetime counter the reset engine
/// never touches; `last_reset_date` is the day `current_count` was last
/// zeroed.
pub struct Plan {
    pub id: String,
    pub title: String,
    pub description: String,
    pub repeat_cycle: String,
    pub plan_days: Vec<i32>,
    pub start_time: String,
    pub end_time: String,
    pub repeat_count: Option<i32>,
    pub current_count: i32,
    pub cycle_target_count: i32,
    pub total_completed_count: i32,
    pub last_reset_date: String,
    pub created_at: String,
    pub category: String,
    pub active: bool,
    pub important: bool,
}

/// The mathematical view of a plan.
#[verifier::ext_equal]
pub ghost struct PlanV {
    pub id: Seq<char>,
    pub title: Seq<char>,
    pub description: Seq<char>,
    pub repeat_cycle: Seq<char>,
    pub plan_days: Seq<i32>,
    pub start_time: Seq<char>,
    pub end_time: Seq<char>,
    pub repeat_count: Option<i32>,
    pub current_count: i32,
    pub cycle_target_count: i32,
    pub total_completed_count: i32,
    pub last_reset_date: Seq<char>,
    pub created_at: Seq<char>,
    pub category: Seq<char>,
    pub active: bool,
    pub important: bool,
}

impl View for Plan {
    type V = PlanV;

    open spec fn view(&self) -> PlanV {
        PlanV {
            id: self.id@,
            title: self.title@,
            description: self.description@,
            repeat_cycle: self.repeat_cycle@,
            plan_days: self.plan_days@,
            start_time: self.start_time@,
            end_time: self.end_time@,
            repeat_count: self.repeat_count,
            current_count: self.current_count,
            cycle_target_count: self.cycle_target_count,
            total_completed_count: self.total_completed_count,
            last_reset_date: self.last_reset_date@,
            created_at: self.created_at@,
            category: self.category@,
            active: self.active,
            important: self.important,
        }
    }
}

/// The views of a sequence of plans.
pub open spec fn plans_view(ps: Seq<Plan>) -> Seq<PlanV> {
    ps.map_values(|p: Plan| p@)
}

/// A field-for-field copy of a plan.
pub fn copy_plan(p: &Plan) -> (r: Plan)
    ensures
        r@ == p@,
{
    let mut days: Vec<i32> = Vec::new();
    let mut i: usize = 0;
    while i < p.plan_days.len()
        invariant
            0 <= i <= p.plan_days@.len(),
            days@ == p.plan_days@.subrange(0, i as int),
        decreases p.plan_days@.len() - i,
    {
        days.push(p.plan_days[i]);
        proof {
            assert(days@ =~= p.plan_days@.subrange(0, i + 1 as int));
        }
        i += 1;
    }
    proof {
        assert(p.plan_days@.subrange(0, p.plan_days@.len() as int) =~= p.plan_days@);
    }
    Plan {
        id: p.id.clone(),
        title: p.title.clone(),
        description: p.description.clone(),
        repeat_cycle: p.repeat_cycle.clone(),
        plan_days: days,
        start_time: p.start_time.clone(),
        end_time: p.end_time.clone(),
        repeat_count: p.repeat_count,
        current_count: p.current_count,
        cycle_target_count: p.cycle_target_count,
        total_completed_count: p.total_completed_count,
        last_reset_date: p.last_reset_date.clone(),
        created_at: p.created_at.clone(),
        category: p.category.clone(),
        active: p.active,
        important: p.important,
    }
}

/// What a caller supplies to create a plan.
pub struct PlanCreateInput {
    pub title: String,
    pub description: String,
    pub repeat_cycle: String,
    pub plan_days: Vec<i32>,
    pub start_time: String,
    pub end_time: String,
    pub repeat_count: Option<i32>,
    pub cycle_target_count: i32,
    pub category: String,
    pub active: bool,
    pub important: bool,
}

// ------------------------------------------------------------------
// the persisted record
// ------------------------------------------------------------------

/// The first third of one persisted plan record.
pub open spec fn enc_plan_a(p: PlanV) -> Seq<char> {
    ("{\"id\":"@ + enc_string(p.id)) + ((",\"title\":"@ + enc_string(p.title)) + ((
    ",\"description\":"@ + enc_string(p.description)) + ((",\"repeatCycle\":"@ + enc_string(
        p.repeat_cycle,
    )) + (",\"planDays\":"@ + enc_arr_i32(p.plan_days)))))
}

/// The second third of one persisted plan record.
pub open spec fn enc_plan_b(p: PlanV) -> Seq<char> {
    (",\"startTime\":"@ + enc_string(p.start_time)) + ((",\"endTime\":"@ + enc_string(p.end_time))
        + ((",\"repeatCount\":"@ + enc_opt_i32(p.repeat_count)) + ((",\"currentCount\":"@
        + enc_i32(p.current_count as int)) + (",\"cycleTargetCount\":"@ + enc_i32(
        p.cycle_target_count as int,
    )))))
}

/// The last third of one persisted plan record.
pub open spec fn enc_plan_c(p: PlanV) -> Seq<char> {
    (",\"totalCompletedCount\":"@ + enc_i32(p.total_completed_count as int)) + ((
    ",\"lastResetDate\":"@ + enc_string(p.last_reset_date)) + ((",\"createdAt\":"@ + enc_string(
        p.created_at,
    )) + ((",\"category\":"@ + enc_string(p.category)) + ((",\"active\":"@ + enc_bool(p.active))
        + ((",\"important\":"@ + enc_bool(p.important)) + "}"@)))))
}

/// The persisted form of one plan record.
#[verifier::opaque]
pub open spec fn enc_plan(p: PlanV) -> Seq<char> {
    enc_plan_a(p) + (enc_plan_b(p) + enc_plan_c(p))
}

/// Reads one plan record.
#[verifier::opaque]
pub open spec fn sp_parse_plan(s: Seq<char>, i: int) -> Option<(PlanV, int)> {
    match sp_field_str(s, i, "{\"id\":"@) {
        None => None,
        Some((id, i1)) => match sp_field_str(s, i1, ",\"title\":"@) {
            None => None,
            Some((title, i2)) => match sp_field_str(s, i2, ",\"description\":"@) {
                None => None,
                Some((description, i3)) => match sp_field_str(s, i3, ",\"repeatCycle\":"@) {
                    None => None,
                    Some((repeat_cycle, i4)) => match sp_field_arr(s, i4, ",\"planDays\":"@) {
                        None => None,
                        Some((plan_days, i5)) => match sp_field_str(s, i5, ",\"startTime\":"@) {
                            None => None,
                            Some((start_time, i6)) => match sp_field_str(s, i6, ",\"endTime\":"@) {
                                None => None,
                                Some((end_time, i7)) => match sp_field_opt_i32(
                                    s,
                                    i7,
                                    ",\"repeatCount\":"@,
                                ) {
                                    None => None,
                                    Some((repeat_count, i8)) => match sp_field_i32(
                                        s,
                                        i8,
                                        ",\"currentCount\":"@,
                                    ) {
                                        None => None,
                                        Some((current_count, i9)) => match sp_field_i32(
                                            s,
                                            i9,
                                            ",\"cycleTargetCount\":"@,
                                        ) {
                                            None => None,
                                            Some((cycle_target_count, i10)) => match sp_field_i32(
                                                s,
                                                i10,
                                                ",\"totalCompletedCount\":"@,
                                            ) {
                                                None => None,
                                                Some((total_completed_count, i11)) => match sp_field_str(
                                                    s,
                                                    i11,
                                                    ",\"lastResetDate\":"@,
                                                ) {
                                                    None => None,
                                                    Some((last_reset_date, i12)) => match sp_field_str(
                                                        s,
                                                        i12,
                                                        ",\"createdAt\":"@,
                                                    ) {
                                                        None => None,
                                                        Some((created_at, i13)) => match sp_field_str(
                                                            s,
                                                            i13,
                                                            ",\"category\":"@,
                                                        ) {
                                                            None => None,
                                                            Some((category, i14)) => match sp_field_bool(
                                                                s,
                                                                i14,
                                                                ",\"active\":"@,
                                                            ) {
                                                                None => None,
                                                                Some((active, i15)) => match sp_field_bool(
                                                                    s,
                                                                    i15,
                                                                    ",\"important\":"@,
                                                                ) {
                                                                    None => None,
                                                                    Some((important, i16)) => match sp_expect(
                                                                        s,
                                                                        i16,
                                                                        "}"@,
                                                                    ) {
                                                                        None => None,
                                                                        Some(j) => if -2147483648
                                                                            <= current_count
                                                                            <= 2147483647
                                                                            && -2147483648
                                                                            <= cycle_target_count
                                                                            <= 2147483647
                                                                            && -2147483648
                                                                            <= total_completed_count
                                                                            <= 2147483647 {
                                                                            Some(
                                                                                (
                                                                                    PlanV {
                                                                                        id,
                                                                                        title,
                                                                                        description,
                                                                                        repeat_cycle,
                                                                                        plan_days,
                                                                                        start_time,
                                                                                        end_time,
                                                                                        repeat_count,
                                                                                        current_count:
                                                                                            current_count as i32,
                                                                                        cycle_target_count:
                                                                                            cycle_target_count as i32,
                                                                                        total_completed_count:
                                                                                            total_completed_count as i32,
                                                                                        last_reset_date,
                                                                                        created_at,
                                                                                        category,
                                                                                        active,
                                                                                        important,
                                                                                    },
                                                                                    j,
                                                                                ),
                                                                            )
                                                                        } else {
                                                                            None
                                                                        },
                                                                    },
                                                                },
                                                            },
                                                        },
                                                    },
                                                },
                                            },
                                        },
                                    },
                                },
                            },
                        },
                    },
                },
            },
        },
    }
}

/// A record written by `enc_plan` reads back as itself.
#[verifier::rlimit(100)]
pub proof fn lemma_plan_rt(s: Seq<char>, i: int, p: PlanV)
    requires
        prefix_at(s, i, enc_plan(p)),
    ensures
        sp_parse_plan(s, i) == Some((p, i + enc_plan(p).len() as int)),
{
    reveal(enc_plan);
    reveal(sp_parse_plan);
    let q1 = "{\"id\":"@ + enc_string(p.id);
    let q2 = ",\"title\":"@ + enc_string(p.title);
    let q3 = ",\"description\":"@ + enc_string(p.description);
    let q4 = ",\"repeatCycle\":"@ + enc_string(p.repeat_cycle);
    let q5 = ",\"planDays\":"@ + enc_arr_i32(p.plan_days);
    let q6 = ",\"startTime\":"@ + enc_string(p.start_time);
    let q7 = ",\"endTime\":"@ + enc_string(p.end_time);
    let q8 = ",\"repeatCount\":"@ + enc_opt_i32(p.repeat_count);
    let q9 = ",\"currentCount\":"@ + enc_i32(p.current_count as int);
    let q10 = ",\"cycleTargetCount\":"@ + enc_i32(p.cycle_target_count as int);
    let q11 = ",\"totalCompletedCount\":"@ + enc_i32(p.total_completed_count as int);
    let q12 = ",\"lastResetDate\":"@ + enc_string(p.last_reset_date);
    let q13 = ",\"createdAt\":"@ + enc_string(p.created_at);
    let q14 = ",\"category\":"@ + enc_string(p.category);
    let q15 = ",\"active\":"@ + enc_bool(p.active);
    let q16 = ",\"important\":"@ + enc_bool(p.important);
    let q17 = "}"@;
    let r16 = q16 + q17;
    let r15 = q15 + r16;
    let r14 = q14 + r15;
    let r13 = q13 + r14;
    let r12 = q12 + r13;
    let r11 = q11 + r12;
    let r10 = q10 + r11;
    let r9 = q9 + r10;
    let r8 = q8 + r9;
    let r7 = q7 + r8;
    let r6 = q6 + r7;
    let r5 = q5 + r6;
    let r4 = q4 + r5;
    let r3 = q3 + r4;
    let r2 = q2 + r3;
    assert(enc_plan(p) =~= q1 + r2);
    lemma_split(s, i, q1, r2);
    lemma_field_str_rt(s, i, "{\"id\":"@, p.id);
    let i1 = i + q1.len();
    lemma_split(s, i1, q2, r3);
    lemma_field_str_rt(s, i1, ",\"title\":"@, p.title);
    let i2 = i1 + q2.len();
    lemma_split(s, i2, q3, r4);
    lemma_field_str_rt(s, i2, ",\"description\":"@, p.description);
    let i3 = i2 + q3.len();
    lemma_split(s, i3, q4, r5);
    lemma_field_str_rt(s, i3, ",\"repeatCycle\":"@, p.repeat_cycle);
    let i4 = i3 + q4.len();
    lemma_split(s, i4, q5, r6);
    lemma_field_arr_rt(s, i4, ",\"planDays\":"@, p.plan_days);
    let i5 = i4 + q5.len();
    lemma_split(s, i5, q6, r7);
    lemma_field_str_rt(s, i5, ",\"startTime\":"@, p.start_time);
    let i6 = i5 + q6.len();
    lemma_split(s, i6, q7, r8);
    lemma_field_str_rt(s, i6, ",\"endTime\":"@, p.end_time);
    let i7 = i6 + q7.len();
    lemma_split(s, i7, q8, r9);
    let i8 = i7 + q8.len();
    lemma_split(s, i8, q9, r10);
    let i9 = i8 + q9.len();
    lemma_split(s, i9, q10, r11);
    let i10 = i9 + q10.len();
    lemma_split(s, i10, q11, r12);
    let i11 = i10 + q11.len();
    lemma_split(s, i11, q12, r13);
    reveal_strlit(",\"currentCount\":");
    reveal_strlit(",\"cycleTargetCount\":");
    reveal_strlit(",\"totalCompletedCount\":");
    reveal_strlit(",\"lastResetDate\":");
    assert(s[i8] == ',') by {
        assert(s.subrange(i8, i8 + q9.len() as int)[0] == s[i8]);
        assert(q9[0] == ',');
    }
    assert(s[i9] == ',') by {
        assert(s.subrange(i9, i9 + q10.len() as int)[0] == s[i9]);
        assert(q10[0] == ',');
    }
    assert(s[i10] == ',') by {
        assert(s.subrange(i10, i10 + q11.len() as int)[0] == s[i10]);
        assert(q11[0] == ',');
    }
    assert(s[i11] == ',') by {
        assert(s.subrange(i11, i11 + q12.len() as int)[0] == s[i11]);
        assert(q12[0] == ',');
    }
    lemma_field_opt_i32_rt(s, i7, ",\"repeatCount\":"@, p.repeat_count);
    lemma_field_i32_rt(s, i8, ",\"currentCount\":"@, p.current_count);
    lemma_field_i32_rt(s, i9, ",\"cycleTargetCount\":"@, p.cycle_target_count);
    lemma_field_i32_rt(s, i10, ",\"totalCompletedCount\":"@, p.total_completed_count);
    lemma_field_str_rt(s, i11, ",\"lastResetDate\":"@, p.last_reset_date);
    let i12 = i11 + q12.len();
    lemma_split(s, i12, q13, r14);
    lemma_field_str_rt(s, i12, ",\"createdAt\":"@, p.created_at);
    let i13 = i12 + q13.len();
    lemma_split(s, i13, q14, r15);
    lemma_field_str_rt(s, i13, ",\"category\":"@, p.category);
    let i14 = i13 + q14.len();
    lemma_split(s, i14, q15, r16);
    lemma_field_bool_rt(s, i14, ",\"active\":"@, p.active);
    let i15 = i14 + q15.len();
    lemma_split(s, i15, q16, q17);
    lemma_field_bool_rt(s, i15, ",\"important\":"@, p.important);
    let i16 = i15 + q16.len();
    assert(sp_expect(s, i16, "}"@) == Some(i16 + q17.len()));
}

/// Writes the first third of one plan record.
#[verifier::rlimit(100)]
fn push_plan_a(out: &mut String, p: &Plan)
    ensures
        final(out)@ == old(out)@ + enc_plan_a(p@),
{
    out.append("{\"id\":");
    push_quoted(out, p.id.as_str());
    out.append(",\"title\":");
    push_quoted(out, p.title.as_str());
    out.append(",\"description\":");
    push_quoted(out, p.description.as_str());
    out.append(",\"repeatCycle\":");
    push_quoted(out, p.repeat_cycle.as_str());
    out.append(",\"planDays\":");
    push_arr_i32(out, &p.plan_days);
    proof {
        assert(final(out)@ =~= old(out)@ + enc_plan_a(p@));
    }
}

/// Writes the second third of one plan record.
#[verifier::rlimit(100)]
fn push_plan_b(out: &mut String, p: &Plan)
    ensures
        final(out)@ == old(out)@ + enc_plan_b(p@),
{
    out.append(",\"startTime\":");
    push_quoted(out, p.start_time.as_str());
    out.append(",\"endTime\":");
    push_quoted(out, p.end_time.as_str());
    out.append(",\"repeatCount\":");
    push_opt_i32(out, &p.repeat_count);
    out.append(",\"currentCount\":");
    push_i32(out, p.current_count);
    out.append(",\"cycleTargetCount\":");
    push_i32(out, p.cycle_target_count);
    proof {
        assert(final(out)@ =~= old(out)@ + enc_plan_b(p@));
    }
}

/// Writes the last third of one plan record.
#[verifier::rlimit(100)]
fn push_plan_c(out: &mut String, p: &Plan)
    ensures
        final(out)@ == old(out)@ + enc_plan_c(p@),
{
    out.append(",\"totalCompletedCount\":");
    push_i32(out, p.total_completed_count);
    out.append(",\"lastResetDate\":");
    push_quoted(out, p.last_reset_date.as_str());
    out.append(",\"createdAt\":");
    push_quoted(out, p.created_at.as_str());
    out.append(",\"category\":");
    push_quoted(out, p.category.as_str());
    out.append(",\"active\":");
    push_bool(out, p.active);
    out.append(",\"important\":");
    push_bool(out, p.important);
    out.append("}");
    proof {
        assert(final(out)@ =~= old(out)@ + enc_plan_c(p@));
    }
}

/// Writes one plan record.
pub fn push_plan(out: &mut String, p: &Plan)
    ensures
        final(out)@ == old(out)@ + enc_plan(p@),
{
    push_plan_a(out, p);
    push_plan_b(out, p);
    push_plan_c(out, p);
    proof {
        reveal(enc_plan);
        assert(final(out)@ =~= old(out)@ + enc_plan(p@));
    }
}

/// Reads one plan record.
pub fn parse_plan(s: &str, i: usize) -> (r: Option<(Plan, usize)>)
    ensures
        r matches Some(p) ==> sp_parse_plan(s@, i as int) == Some((p.0@, p.1 as int)) && p.1
            <= s@.len(),
        r is None ==> sp_parse_plan(s@, i as int) is None,
{
    proof {
        reveal(sp_parse_plan);
    }
    let Some((id, i1)) = parse_field_str(s, i, "{\"id\":") else { return None };
    let Some((title, i2)) = parse_field_str(s, i1, ",\"title\":") else { return None };
    let Some((description, i3)) = parse_field_str(s, i2, ",\"description\":") else { return None };
    let Some((repeat_cycle, i4)) = parse_field_str(s, i3, ",\"repeatCycle\":") else {
        return None
    };
    let Some((plan_days, i5)) = parse_field_arr(s, i4, ",\"planDays\":") else { return None };
    let Some((start_time, i6)) = parse_field_str(s, i5, ",\"startTime\":") else { return None };
    let Some((end_time, i7)) = parse_field_str(s, i6, ",\"endTime\":") else { return None };
    let Some((repeat_count, i8)) = parse_field_opt_i32(s, i7, ",\"repeatCount\":") else {
        return None
    };
    let Some((current_count, i9)) = parse_field_i32(s, i8, ",\"currentCount\":") else {
        return None
    };
    let Some((cycle_target_count, i10)) = parse_field_i32(s, i9, ",\"cycleTargetCount\":") else {
        return None
    };
    let Some((total_completed_count, i11)) = parse_field_i32(
        s,
        i10,
        ",\"totalCompletedCount\":",
    ) else { return None };
    let Some((last_reset_date, i12)) = parse_field_str(s, i11, ",\"lastResetDate\":") else {
        return None
    };
    let Some((created_at, i13)) = parse_field_str(s, i12, ",\"createdAt\":") else { return None };
    let Some((category, i14)) = parse_field_str(s, i13, ",\"category\":") else { return None };
    let Some((active, i15)) = parse_field_bool(s, i14, ",\"active\":") else { return None };
    let Some((important, i16)) = parse_field_bool(s, i15, ",\"important\":") else { return None };
    let Some(j) = expect_lit(s, i16, "}") else { return None };
    Some(
        (
            Plan {
                id,
                title,
                description,
                repeat_cycle,
                plan_days,
                start_time,
                end_time,
                repeat_count,
                current_count,
                cycle_target_count,
                total_completed_count,
                last_reset_date,
                created_at,
                category,
                active,
                important,
            },
            j,
        ),
    )
}

// ------------------------------------------------------------------
// the persisted collection
// ------------------------------------------------------------------

/// The comma-separated records of a plan collection.
pub open spec fn enc_plan_items(ps: Seq<PlanV>) -> Seq<char>
    decreases ps.len(),
{
    if ps.len() == 0 {
        Seq::empty()
    } else if ps.len() == 1 {
        enc_plan(ps[0])
    } else {
        enc_plan(ps[0]) + (seq![','] + enc_plan_items(ps.subrange(1, ps.len() as int)))
    }
}

/// The full persisted file content for a collection of plans.
pub open spec fn enc_plans(ps: Seq<PlanV>) -> Seq<char> {
    seq!['['] + enc_plan_items(ps) + seq![']']
}

/// Reads plan records separated by commas, up to and over the closing
/// bracket.
pub open spec fn sp_plan_items(s: Seq<char>, i: int) -> Option<(Seq<PlanV>, int)>
    decreases s.len() - i,
{
    match sp_parse_plan(s, i) {
        None => None,
        Some((p, j)) => if j <= i || j >= s.len() {
            None
        } else if s[j] == ']' {
            Some((seq![p], j + 1))
        } else if s[j] == ',' {
            match sp_plan_items(s, j + 1) {
                None => None,
                Some((ps, k)) => Some((seq![p] + ps, k)),
            }
        } else {
            None
        },
    }
}

/// Reads a whole plan collection.
pub open spec fn sp_parse_plans(s: Seq<char>, i: int) -> Option<(Seq<PlanV>, int)> {
    if !(0 <= i < s.len()) || s[i] != '[' {
        None
    } else if i + 1 < s.len() && s[i + 1] == ']' {
        Some((Seq::empty(), i + 2))
    } else {
        sp_plan_items(s, i + 1)
    }
}

/// What loading plan file content yields: the parsed collection when the
/// whole text is one well-formed collection, the empty collection otherwise.
pub open spec fn sp_load_plans(s: Seq<char>) -> Seq<PlanV> {
    match sp_parse_plans(s, 0) {
        Some((ps, j)) => if j == s.len() {
            ps
        } else {
            Seq::empty()
        },
        None => Seq::empty(),
    }
}

/// A plan record's text is nonempty and opens with a brace.
pub proof fn lemma_enc_plan_head(p: PlanV)
    ensures
        enc_plan(p).len() >= 1,
        enc_plan(p)[0] == '{',
{
    reveal(enc_plan);
    reveal_strlit("{\"id\":");
    assert(enc_plan(p)[0] == enc_plan_a(p)[0]);
    assert(enc_plan_a(p)[0] == ("{\"id\":"@ + enc_string(p.id))[0]);
}

/// Plan records written with commas and a closing bracket read back as
/// themselves.
#[verifier::rlimit(100)]
pub proof fn lemma_plan_items_rt(s: Seq<char>, i: int, ps: Seq<PlanV>)
    requires
        ps.len() >= 1,
        prefix_at(s, i, enc_plan_items(ps) + seq![']']),
    ensures
        sp_plan_items(s, i) == Some((ps, i + enc_plan_items(ps).len() + 1)),
    decreases ps.len(),
{
    if ps.len() == 1 {
        assert(enc_plan_items(ps) == enc_plan(ps[0]));
        lemma_split(s, i, enc_plan(ps[0]), seq![']']);
        lemma_plan_rt(s, i, ps[0]);
        let j = i + enc_plan(ps[0]).len();
        lemma_enc_plan_head(ps[0]);
        assert(s[j] == ']') by {
            assert(s.subrange(j, j + 1)[0] == s[j]);
        }
        assert(seq![ps[0]] =~= ps);
    } else {
        let ps2 = ps.subrange(1, ps.len() as int);
        assert(enc_plan_items(ps) == enc_plan(ps[0]) + (seq![','] + enc_plan_items(ps2)));
        assert((enc_plan(ps[0]) + (seq![','] + enc_plan_items(ps2))) + seq![']'] =~= enc_plan(
            ps[0],
        ) + (seq![','] + (enc_plan_items(ps2) + seq![']'])));
        lemma_split(s, i, enc_plan(ps[0]), seq![','] + (enc_plan_items(ps2) + seq![']']));
        lemma_plan_rt(s, i, ps[0]);
        let j = i + enc_plan(ps[0]).len();
        lemma_enc_plan_head(ps[0]);
        lemma_split(s, j, seq![','], enc_plan_items(ps2) + seq![']']);
        assert(s[j] == ',') by {
            assert(s.subrange(j, j + 1)[0] == s[j]);
        }
        lemma_plan_items_rt(s, j + 1, ps2);
        assert(seq![ps[0]] + ps2 =~= ps);
    }
}

/// A collection written by `enc_plans` reads back as itself.
pub proof fn lemma_parse_plans_rt(s: Seq<char>, i: int, ps: Seq<PlanV>)
    requires
        prefix_at(s, i, enc_plans(ps)),
    ensures
        sp_parse_plans(s, i) == Some((ps, i + enc_plans(ps).len() as int)),
{
    assert(enc_plans(ps) =~= seq!['['] + (enc_plan_items(ps) + seq![']']));
    lemma_split(s, i, seq!['['], enc_plan_items(ps) + seq![']']);
    assert(s[i] == '[') by {
        assert(s.subrange(i, i + 1)[0] == s[i]);
    }
    if ps.len() == 0 {
        assert(enc_plan_items(ps) == Seq::<char>::empty());
        assert(enc_plan_items(ps) + seq![']'] =~= seq![']']);
        assert(s[i + 1] == ']') by {
            assert(s.subrange(i + 1, i + 2)[0] == s[i + 1]);
        }
    } else {
        lemma_enc_plan_head(ps[0]);
        assert(enc_plan_items(ps)[0] == enc_plan(ps[0])[0]);
        assert(s[i + 1] == '{') by {
            let body = enc_plan_items(ps) + seq![']'];
            assert(s.subrange(i + 1, i + 1 + body.len() as int)[0] == s[i + 1]);
        }
        lemma_plan_items_rt(s, i + 1, ps);
    }
}

/// Loading exactly what was saved yields the original plan collection,
/// field for field.
pub proof fn lemma_plans_roundtrip(ps: Seq<PlanV>)
    ensures
        sp_load_plans(enc_plans(ps)) == ps,
{
    let s = enc_plans(ps);
    assert(s.subrange(0, s.len() as int) =~= s);
    lemma_parse_plans_rt(s, 0, ps);
}

/// Writes the records of the plan collection from index `k` on.
pub fn push_plan_items(out: &mut String, ps: &Vec<Plan>, k: usize)
    requires
        k <= ps@.len(),
    ensures
        final(out)@ == old(out)@ + enc_plan_items(plans_view(ps@).subrange(
            k as int,
            ps@.len() as int,
        )),
    decreases ps@.len() - k,
{
    let ghost tail = plans_view(ps@).subrange(k as int, ps@.len() as int);
    if k < ps.len() {
        push_plan(out, &ps[k]);
        if k + 1 < ps.len() {
            push_char(out, ',');
            push_plan_items(out, ps, k + 1);
            proof {
                assert(tail[0] == ps@[k as int]@);
                assert(tail.subrange(1, tail.len() as int) =~= plans_view(ps@).subrange(
                    k + 1 as int,
                    ps@.len() as int,
                ));
                assert(final(out)@ =~= old(out)@ + enc_plan_items(tail));
            }
        } else {
            proof {
                assert(tail.len() == 1);
                assert(tail[0] == ps@[k as int]@);
                assert(final(out)@ =~= old(out)@ + enc_plan_items(tail));
            }
        }
    } else {
        proof {
            assert(tail =~= Seq::<PlanV>::empty());
            assert(final(out)@ =~= old(out)@ + enc_plan_items(tail));
        }
    }
}

/// The full file content for a collection of plans.
pub fn save_plans(ps: &Vec<Plan>) -> (r: String)
    ensures
        r@ == enc_plans(plans_view(ps@)),
{
    let mut out = String::new();
    push_char(&mut out, '[');
    push_plan_items(&mut out, ps, 0);
    push_char(&mut out, ']');
    proof {
        assert(plans_view(ps@).subrange(0, ps@.len() as int) =~= plans_view(ps@));
        assert(out@ =~= enc_plans(plans_view(ps@)));
    }
    out
}

/// Reads plan records separated by commas, pushing them onto `acc`.
fn parse_plan_items(s: &str, i: usize, acc: &mut Vec<Plan>) -> (r: Option<usize>)
    ensures
        r matches Some(j) ==> sp_plan_items(s@, i as int) matches Some(p) && plans_view(
            final(acc)@,
        ) == plans_view(old(acc)@) + p.0 && p.1 == j as int,
        r is None ==> sp_plan_items(s@, i as int) is None,
    decreases s@.len() - i,
{
    let n = s.unicode_len();
    let Some((p, j)) = parse_plan(s, i) else { return None };
    if j <= i || j >= n {
        return None;
    }
    let c = s.get_char(j);
    if c == ']' {
        acc.push(p);
        proof {
            assert(plans_view(final(acc)@) =~= plans_view(old(acc)@) + seq![p@]);
        }
        Some(j + 1)
    } else if c == ',' {
        let ghost pv = p@;
        acc.push(p);
        let r = parse_plan_items(s, j + 1, acc);
        proof {
            if r is Some {
                let q = sp_plan_items(s@, j + 1 as int).unwrap();
                assert(plans_view(final(acc)@) =~= plans_view(old(acc)@) + (seq![pv] + q.0));
            }
        }
        r
    } else {
        None
    }
}

/// Reads a whole plan collection.
pub fn parse_plans(s: &str, i: usize) -> (r: Option<(Vec<Plan>, usize)>)
    ensures
        r matches Some(p) ==> sp_parse_plans(s@, i as int) == Some(
            (plans_view(p.0@), p.1 as int),
        ),
        r is None ==> sp_parse_plans(s@, i as int) is None,
{
    let n = s.unicode_len();
    if i >= n {
        return None;
    }
    if s.get_char(i) != '[' {
        return None;
    }
    if i + 1 < n && s.get_char(i + 1) == ']' {
        let empty: Vec<Plan> = Vec::new();
        proof {
            assert(plans_view(empty@) =~= Seq::<PlanV>::empty());
        }
        return Some((empty, i + 2));
    }
    let mut acc: Vec<Plan> = Vec::new();
    match parse_plan_items(s, i + 1, &mut acc) {
        Some(j) => {
            proof {
                let p = sp_plan_items(s@, i + 1 as int).unwrap();
                assert(plans_view(acc@) =~= Seq::<PlanV>::empty() + p.0);
            }
            Some((acc, j))
        },
        None => None,
    }
}

/// Turns plan file content into the collection it holds; any malformed or
/// partial content yields the empty collection (silent recovery).
pub fn load_plans(s: &str) -> (r: Vec<Plan>)
    ensures
        plans_view(r@) == sp_load_plans(s@),
{
    let n = s.unicode_len();
    match parse_plans(s, 0) {
        Some((v, j)) => {
            if j == n {
                v
            } else {
                let empty: Vec<Plan> = Vec::new();
                proof {
                    assert(plans_view(empty@) =~= Seq::<PlanV>::empty());
                }
                empty
            }
        },
        None => {
            let empty: Vec<Plan> = Vec::new();
            proof {
                assert(plans_view(empty@) =~= Seq::<PlanV>::empty());
            }
            empty
        },
    }
}

} // verus!
