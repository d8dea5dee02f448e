use buddy_schedule::error::AppError;
use buddy_schedule::models::Period;
use buddy_schedule::repo::MemRepo;
use buddy_schedule::template::{expand_template, parse_week_start, plan_slot, TemplateSlot};

const HOUR: i64 = 3_600_000_000;
const DAY: i64 = 24 * HOUR;
// 2024-01-01T00:00:00Z in microseconds
const JAN_1_2024: i64 = 1_704_067_200_000_000;

fn slot(dow: i64, period: Period, start: &str, end: &str) -> TemplateSlot {
    TemplateSlot { dow, period, start: start.to_string(), end: end.to_string() }
}

#[test]
fn week_start_parses_to_day_number() {
    assert_eq!(parse_week_start("2024-01-01").unwrap(), 19723);
    assert_eq!(parse_week_start("1970-01-01").unwrap(), 0);
    assert!(matches!(parse_week_start("2024-13-01"), Err(AppError::BadRequest(_))));
    assert!(matches!(parse_week_start("01/01/2024"), Err(AppError::BadRequest(_))));
}

#[test]
fn overnight_slot_example() {
    let week = parse_week_start("2024-01-01").unwrap();
    let shifts = expand_template(3, 4, week, &vec![slot(5, Period::Night, "22:00", "06:00")]).unwrap();
    assert_eq!(shifts.len(), 1);
    // 2024-01-06T22:00:00Z and 2024-01-07T06:00:00Z
    assert_eq!(shifts[0].starts_at, 1_704_578_400_000_000);
    assert_eq!(shifts[0].ends_at, 1_704_607_200_000_000);
    assert_eq!(shifts[0].period, Period::Night);
    assert_eq!(shifts[0].schedule_id, 3);
    assert_eq!(shifts[0].created_by, 4);
}

#[test]
fn daytime_slots_keep_their_order_and_day() {
    let week = parse_week_start("2024-01-01").unwrap();
    let slots = vec![
        slot(0, Period::Morning, "08:00", "12:00"),
        slot(6, Period::Afternoon, "13:30", "17:45"),
        slot(2, Period::Sleep, "7:15", "07:15"),
    ];
    let shifts = expand_template(1, 1, week, &slots).unwrap();
    assert_eq!(shifts.len(), 3);
    assert_eq!(shifts[0].starts_at, JAN_1_2024 + 8 * HOUR);
    assert_eq!(shifts[0].ends_at, JAN_1_2024 + 12 * HOUR);
    assert_eq!(shifts[1].starts_at, JAN_1_2024 + 6 * DAY + 13 * HOUR + 30 * 60_000_000);
    assert_eq!(shifts[1].ends_at, JAN_1_2024 + 6 * DAY + 17 * HOUR + 45 * 60_000_000);
    // equal start and end: the end moves one day on
    assert_eq!(shifts[2].starts_at, JAN_1_2024 + 2 * DAY + 7 * HOUR + 15 * 60_000_000);
    assert_eq!(shifts[2].ends_at, JAN_1_2024 + 3 * DAY + 7 * HOUR + 15 * 60_000_000);
}

#[test]
fn out_of_range_dow_is_rejected_and_nothing_inserted() {
    let mut repo = MemRepo::new();
    let week = parse_week_start("2024-01-01").unwrap();
    let slots = vec![slot(1, Period::Morning, "08:00", "12:00"), slot(7, Period::Night, "22:00", "06:00")];
    let r = expand_template(3, 4, week, &slots);
    assert!(matches!(r, Err(AppError::BadRequest(_))));
    if let Ok(specs) = r {
        repo.create_shifts(&specs).unwrap();
    }
    assert!(repo.list_shifts(3, i64::MIN, i64::MAX).is_empty());
    assert!(matches!(expand_template(3, 4, week, &vec![slot(-1, Period::Morning, "08:00", "09:00")]), Err(AppError::BadRequest(_))));
}

#[test]
fn malformed_clock_times_are_rejected() {
    let week = parse_week_start("2024-01-01").unwrap();
    for (start, end) in [("24:00", "06:00"), ("08:00", "17:60"), ("8am", "09:00"), ("08:00", "")] {
        let r = expand_template(3, 4, week, &vec![slot(0, Period::Morning, start, end)]);
        assert!(matches!(r, Err(AppError::BadRequest(_))), "{start} {end}");
    }
}

#[test]
fn plan_slot_checks_the_calendar_range() {
    // the last representable date, 262142-12-31
    let last: i32 = 95_026_236;
    assert_eq!(parse_week_start("+262142-12-31").unwrap(), last);
    assert!(plan_slot(last, 0, Some(3600), Some(7200)).is_ok());
    // one day past the last date
    assert!(matches!(plan_slot(last, 1, Some(3600), Some(7200)), Err(AppError::BadRequest(_))));
    // an overnight end that would fall past the last date
    assert!(matches!(plan_slot(last, 0, Some(7200), Some(3600)), Err(AppError::BadRequest(_))));
    // the first representable date, -262143-01-01, and the day before it
    let first: i32 = -96_465_292;
    assert!(plan_slot(first, 0, Some(0), Some(60)).is_ok());
    assert!(matches!(plan_slot(first - 1, 1, Some(0), Some(60)), Err(AppError::BadRequest(_))));
    assert!(matches!(plan_slot(0, 0, None, Some(3600)), Err(AppError::BadRequest(_))));
    assert_eq!(plan_slot(0, 1, Some(0), Some(0)).unwrap(), (DAY, 2 * DAY));
}

#[test]
fn reapplying_template_duplicates_shifts() {
    let mut repo = MemRepo::new();
    let week = parse_week_start("2024-01-01").unwrap();
    let slots = vec![
        slot(0, Period::Morning, "08:00", "12:00"),
        slot(5, Period::Night, "22:00", "06:00"),
    ];
    let first = repo.create_shifts(&expand_template(3, 4, week, &slots).unwrap()).unwrap();
    let second = repo.create_shifts(&expand_template(3, 4, week, &slots).unwrap()).unwrap();
    assert_eq!(first.len(), 2);
    assert_eq!(second.len(), 2);
    for i in 0..2 {
        assert_eq!(first[i].starts_at, second[i].starts_at);
        assert_eq!(first[i].ends_at, second[i].ends_at);
        assert_eq!(first[i].period, second[i].period);
        assert_ne!(first[i].id, second[i].id);
    }
    let listed = repo.list_shifts(3, JAN_1_2024, JAN_1_2024 + 7 * DAY);
    assert_eq!(listed.len(), 4);
    assert_eq!(listed[0].starts_at, listed[1].starts_at);
    assert_eq!(listed[2].starts_at, listed[3].starts_at);
    assert_ne!(listed[0].id, listed[1].id);
    assert_eq!(listed[2].ends_at, listed[3].ends_at);
}

#[test]
fn batch_insert_keeps_earlier_shifts_and_order() {
    let mut repo = MemRepo::new();
    let week = parse_week_start("2024-01-01").unwrap();
    assert!(repo.create_shifts(&Vec::new()).unwrap().is_empty());
    let one = expand_template(3, 4, week, &vec![slot(2, Period::Sleep, "23:00", "07:00")]).unwrap();
    let stored = repo.create_shifts(&one).unwrap();
    assert_eq!(stored.len(), 1);
    assert_eq!(stored[0].starts_at, JAN_1_2024 + 2 * DAY + 23 * HOUR);
    assert_eq!(stored[0].ends_at, JAN_1_2024 + 3 * DAY + 7 * HOUR);
    assert_eq!(stored[0].assigned_user_id, None);
    let more = expand_template(
        3,
        4,
        week,
        &vec![slot(4, Period::Morning, "06:00", "10:00"), slot(0, Period::Night, "20:00", "23:00")],
    )
    .unwrap();
    let stored_more = repo.create_shifts(&more).unwrap();
    assert_eq!(stored_more[0].starts_at, JAN_1_2024 + 4 * DAY + 6 * HOUR);
    assert_eq!(stored_more[1].starts_at, JAN_1_2024 + 20 * HOUR);
    let starts: Vec<i64> = repo.list_shifts(3, i64::MIN, i64::MAX).iter().map(|s| s.starts_at).collect();
    assert_eq!(starts, vec![JAN_1_2024 + 20 * HOUR, JAN_1_2024 + 2 * DAY + 23 * HOUR, JAN_1_2024 + 4 * DAY + 6 * HOUR]);
}
