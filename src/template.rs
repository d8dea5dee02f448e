//! Expansion of a weekly rotation template into dated shifts.
use vstd::prelude::*;
use crate::clock::{
    add_days, instant_of, MAX_DAY, MIN_DAY, SECONDS_PER_DAY, parse_clock, parse_date, parsed_clock, parsed_date, valid_day,
    MICROS_PER_DAY, MICROS_PER_SECOND,
};
use crate::error::{bad_request, is_bad_request, AppError, AppResult};
use crate::models::{Id, Period};
use crate::repo::NewShift;

verus! {

/// One entry of a template: a day of the week (0 is Monday), a period and
/// start and end clock times written "HH:MM".
#[derive(Clone, Debug)]
pub struct TemplateSlot {
    pub dow: i64,
    pub period: Period,
    pub start: String,
    pub end: String,
}

/// The start and end instants of a slot on day `dow` of the week that starts
/// on day `week_start`, given its parsed clock times; `None` when the slot is
/// malformed or a date it needs cannot be represented. An end at or before the
/// start moves to the next day, once.
pub open spec fn slot_window(week_start: int, dow: int, start: Option<u32>, end: Option<u32>) -> Option<
    (int, int),
> {
    if !(0 <= dow <= 6) {
        None
    } else {
        match (start, end) {
            (Some(s), Some(e)) => {
                let day = week_start + dow;
                if !(valid_day(week_start) && valid_day(day)) {
                    None
                } else {
                    let st = instant_of(day, s as int);
                    let en = instant_of(day, e as int);
                    if en <= st {
                        if valid_day(day + 1) {
                            Some((st, en + MICROS_PER_DAY))
                        } else {
                            None
                        }
                    } else {
                        Some((st, en))
                    }
                }
            },
            _ => None,
        }
    }
}

/// The shift that `slot` yields for the week starting on day `week_start`.
pub open spec fn slot_shift(schedule_id: Id, created_by: Id, week_start: int, slot: TemplateSlot) -> Option<
    NewShift,
> {
    match slot_window(week_start, slot.dow as int, parsed_clock(slot.start@), parsed_clock(slot.end@)) {
        Some((st, en)) => Some(
            NewShift {
                schedule_id,
                starts_at: st as i64,
                ends_at: en as i64,
                period: slot.period,
                created_by,
            },
        ),
        None => None,
    }
}

/// A shift that starts on day `day` and lasts more than nothing and at most
/// one day.
pub open spec fn starts_on_day(starts_at: int, ends_at: int, day: int) -> bool {
    &&& instant_of(day, 0) <= starts_at < instant_of(day + 1, 0)
    &&& starts_at < ends_at <= starts_at + MICROS_PER_DAY
}

/// Every slot yields a shift.
pub open spec fn all_slots_valid(week_start: int, slots: Seq<TemplateSlot>) -> bool {
    forall|i: int|
        0 <= i < slots.len() ==> slot_window(
            week_start,
            slots[i].dow as int,
            parsed_clock(slots[i].start@),
            parsed_clock(slots[i].end@),
        ) is Some
}

/// Reads a week start written "YYYY-MM-DD" as a day number.
pub fn parse_week_start(s: &str) -> (r: AppResult<i32>)
    ensures
        match parsed_date(s@) {
            Some(d) => r == Ok::<i32, AppError>(d),
            None => is_bad_request(r),
        },
{
    match parse_date(s) {
        Some(d) => Ok(d),
        None => Err(bad_request("week_start must be YYYY-MM-DD")),
    }
}

/// The window of one slot, from its day of the week and parsed clock times.
/// Fails with BadRequest exactly when `slot_window` has none.
pub fn plan_slot(week_start: i32, dow: i64, start: Option<u32>, end: Option<u32>) -> (r: AppResult<
    (i64, i64),
>)
    ensures
        match slot_window(week_start as int, dow as int, start, end) {
            Some((st, en)) => r == Ok::<(i64, i64), AppError>((st as i64, en as i64)),
            None => is_bad_request(r),
        },
        r matches Ok((st, en)) ==> (start matches Some(s) ==> (end matches Some(e) ==> (s
            < SECONDS_PER_DAY && e < SECONDS_PER_DAY ==> starts_on_day(
            st as int,
            en as int,
            week_start + dow,
        )))),
{
    if dow < 0 || dow > 6 {
        return Err(bad_request("slot.dow must be 0..6"));
    }
    let s = match start {
        Some(s) => s,
        None => return Err(bad_request("slot.start must be HH:MM")),
    };
    let e = match end {
        Some(e) => e,
        None => return Err(bad_request("slot.end must be HH:MM")),
    };
    let day = match add_days(week_start, dow) {
        Some(d) => d,
        None => return Err(bad_request("invalid date")),
    };
    proof {
        assert(MIN_DAY * MICROS_PER_DAY <= day as int * MICROS_PER_DAY) by (nonlinear_arith)
            requires
                MIN_DAY <= day,
        ;
        assert(day as int * MICROS_PER_DAY <= MAX_DAY * MICROS_PER_DAY) by (nonlinear_arith)
            requires
                day <= MAX_DAY,
        ;
    }
    let base: i64 = day as i64 * MICROS_PER_DAY;
    let st: i64 = base + s as i64 * MICROS_PER_SECOND;
    let en: i64 = base + e as i64 * MICROS_PER_SECOND;
    if en <= st {
        match add_days(day, 1) {
            Some(_) => Ok((st, en + MICROS_PER_DAY)),
            None => Err(bad_request("invalid date")),
        }
    } else {
        Ok((st, en))
    }
}

/// The shifts that `slots` yield, in slot order, for the week starting on
/// day `week_start`. Fails with BadRequest, yielding nothing, as soon as one
/// slot is malformed; nothing is checked against shifts already stored.
pub fn expand_template(
    schedule_id: Id,
    created_by: Id,
    week_start: i32,
    slots: &Vec<TemplateSlot>,
) -> (r: AppResult<Vec<NewShift>>)
    ensures
        all_slots_valid(week_start as int, slots@) <==> r is Ok,
        !all_slots_valid(week_start as int, slots@) ==> is_bad_request(r),
        r matches Ok(v) ==> v@.len() == slots@.len() && forall|i: int|
            0 <= i < v@.len() ==> slot_shift(schedule_id, created_by, week_start as int, slots@[i])
                == Some(#[trigger] v@[i]),
        r matches Ok(v) ==> forall|i: int|
            0 <= i < v@.len() ==> starts_on_day(
                (#[trigger] v@[i]).starts_at as int,
                v@[i].ends_at as int,
                week_start + slots@[i].dow,
            ),
{
    let mut out: Vec<NewShift> = Vec::new();
    let n = slots.len();
    let mut i: usize = 0;
    while i < n
        invariant
            n == slots@.len(),
            i <= n,
            out@.len() == i,
            forall|k: int|
                0 <= k < i ==> slot_shift(schedule_id, created_by, week_start as int, slots@[k])
                    == Some(#[trigger] out@[k]),
            forall|k: int|
                0 <= k < i ==> starts_on_day(
                    (#[trigger] out@[k]).starts_at as int,
                    out@[k].ends_at as int,
                    week_start + slots@[k].dow,
                ),
        decreases n - i,
    {
        let slot = &slots[i];
        let start = parse_clock(slot.start.as_str());
        let end = parse_clock(slot.end.as_str());
        match plan_slot(week_start, slot.dow, start, end) {
            Ok((st, en)) => {
                out.push(
                    NewShift { schedule_id, starts_at: st, ends_at: en, period: slot.period, created_by },
                );
            },
            Err(e) => {
                assert(!all_slots_valid(week_start as int, slots@)) by {
                    assert(slots@[i as int] == *slot);
                }
                return Err(e);
            },
        }
        i = i + 1;
    }
    assert forall|k: int| 0 <= k < n implies slot_window(
        week_start as int,
        slots@[k].dow as int,
        parsed_clock(slots@[k].start@),
        parsed_clock(slots@[k].end@),
    ) is Some by {
        assert(slot_shift(schedule_id, created_by, week_start as int, slots@[k]) == Some(out@[k]));
    }
    Ok(out)
}

} // verus!
