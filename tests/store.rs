use buddy_schedule::error::AppError;
use buddy_schedule::models::{Period, ScheduleRole};
use buddy_schedule::repo::{MemRepo, NewSchedule, NewShift, NewShiftComment, NewTemplate, NewUser};

fn user(repo: &mut MemRepo, email: &str) -> u128 {
    repo.create_user(NewUser {
        email: email.to_string(),
        password_hash: "hash".to_string(),
        is_superadmin: false,
    })
    .unwrap()
    .id
}

fn schedule(repo: &mut MemRepo, owner: u128, name: &str, now: i64, id: u128) -> u128 {
    repo.create_schedule_with(
        NewSchedule {
            name: name.to_string(),
            subject_type: "pet".to_string(),
            subject_name: "Puppy".to_string(),
            created_by: owner,
        },
        id,
        now,
    )
    .unwrap()
    .id
}

fn shift_at(schedule_id: u128, start: i64) -> NewShift {
    NewShift {
        schedule_id,
        starts_at: start,
        ends_at: start + 3_600_000_000,
        period: Period::Morning,
        created_by: 1,
    }
}

#[test]
fn schedule_creator_is_admin_member() {
    let mut repo = MemRepo::new();
    let owner = user(&mut repo, "owner@example.com");
    let s = repo
        .create_schedule(NewSchedule {
            name: "Care".to_string(),
            subject_type: "pet".to_string(),
            subject_name: "Puppy".to_string(),
            created_by: owner,
        })
        .unwrap();
    assert_eq!(repo.get_schedule_role(s.id, owner), Some(ScheduleRole::Admin));
    let members = repo.list_schedule_members(s.id);
    assert_eq!(members.len(), 1);
    assert_eq!(members[0].0.id, owner);
    assert_eq!(members[0].1, ScheduleRole::Admin);
    let mine = repo.list_schedules_for_user(owner);
    assert_eq!(mine.len(), 1);
    assert_eq!(mine[0].schedule.id, s.id);
    assert_eq!(mine[0].role, ScheduleRole::Admin);
    assert_eq!(repo.get_schedule(s.id).unwrap().subject_name, "Puppy");
}

#[test]
fn schedules_are_listed_newest_first() {
    let mut repo = MemRepo::new();
    let owner = user(&mut repo, "owner@example.com");
    let a = schedule(&mut repo, owner, "A", 100, 11);
    let b = schedule(&mut repo, owner, "B", 300, 12);
    let c = schedule(&mut repo, owner, "C", 200, 13);
    let other = user(&mut repo, "other@example.com");
    schedule(&mut repo, other, "D", 400, 14);
    let ids: Vec<u128> = repo.list_schedules_for_user(owner).iter().map(|x| x.schedule.id).collect();
    assert_eq!(ids, vec![b, c, a]);
}

#[test]
fn schedule_id_collision_is_internal_and_changes_nothing() {
    let mut repo = MemRepo::new();
    let owner = user(&mut repo, "owner@example.com");
    schedule(&mut repo, owner, "A", 100, 7);
    let again = repo.create_schedule_with(
        NewSchedule {
            name: "B".to_string(),
            subject_type: String::new(),
            subject_name: String::new(),
            created_by: owner,
        },
        7,
        200,
    );
    assert!(matches!(again, Err(AppError::Internal)));
    assert_eq!(repo.list_schedules_for_user(owner).len(), 1);
}

#[test]
fn duplicate_membership_is_conflict() {
    let mut repo = MemRepo::new();
    let owner = user(&mut repo, "owner@example.com");
    let member = user(&mut repo, "member@example.com");
    let s = schedule(&mut repo, owner, "Care", 1, 5);
    assert!(repo.add_member(s, member, ScheduleRole::User).is_ok());
    let second = repo.add_member(s, member, ScheduleRole::Admin);
    assert!(matches!(second, Err(AppError::Conflict(_))));
    assert_eq!(repo.get_schedule_role(s, member), Some(ScheduleRole::User));
    assert_eq!(repo.list_schedule_members(s).len(), 2);
}

#[test]
fn set_member_role_needs_membership() {
    let mut repo = MemRepo::new();
    let owner = user(&mut repo, "owner@example.com");
    let member = user(&mut repo, "member@example.com");
    let s = schedule(&mut repo, owner, "Care", 1, 5);
    assert!(matches!(repo.set_member_role(s, member, ScheduleRole::Admin), Err(AppError::NotFound)));
    repo.add_member(s, member, ScheduleRole::User).unwrap();
    repo.set_member_role(s, member, ScheduleRole::Admin).unwrap();
    assert_eq!(repo.get_schedule_role(s, member), Some(ScheduleRole::Admin));
}

#[test]
fn list_shifts_returns_window_sorted_by_start() {
    let mut repo = MemRepo::new();
    for start in [500i64, 100, 300, 200, 400, 300] {
        repo.create_shift(shift_at(9, start)).unwrap();
    }
    repo.create_shift(shift_at(8, 250)).unwrap();
    let listed = repo.list_shifts(9, 200, 400);
    let starts: Vec<i64> = listed.iter().map(|s| s.starts_at).collect();
    assert_eq!(starts, vec![200, 300, 300]);
    assert!(listed.iter().all(|s| s.schedule_id == 9 && s.assigned_user_id.is_none()));
    assert!(repo.list_shifts(9, 300, 300).is_empty());
    assert_eq!(repo.list_shifts(9, i64::MIN, i64::MAX).len(), 6);
}

#[test]
fn assign_shift_sets_assignee_or_reports_missing() {
    let mut repo = MemRepo::new();
    let shift = repo.create_shift(shift_at(9, 100)).unwrap();
    repo.assign_shift(shift.id, Some(42)).unwrap();
    assert_eq!(repo.get_shift(shift.id).unwrap().assigned_user_id, Some(42));
    repo.assign_shift(shift.id, None).unwrap();
    assert_eq!(repo.get_shift(shift.id).unwrap().assigned_user_id, None);
    let missing = shift.id.wrapping_add(1);
    assert!(matches!(repo.assign_shift(missing, Some(1)), Err(AppError::NotFound)));
}

#[test]
fn comments_are_listed_oldest_first() {
    let mut repo = MemRepo::new();
    for (id, now, body) in [(1u128, 30i64, "third"), (2, 10, "first"), (3, 20, "second")] {
        repo.add_shift_comment_with(
            NewShiftComment { shift_id: 77, user_id: 5, body: body.to_string() },
            id,
            now,
        )
        .unwrap();
    }
    repo.add_shift_comment_with(
        NewShiftComment { shift_id: 78, user_id: 5, body: "elsewhere".to_string() },
        4,
        15,
    )
    .unwrap();
    let bodies: Vec<String> = repo.list_shift_comments(77).into_iter().map(|c| c.body).collect();
    assert_eq!(bodies, vec!["first", "second", "third"]);
    let dup = repo.add_shift_comment_with(
        NewShiftComment { shift_id: 77, user_id: 5, body: "x".to_string() },
        2,
        40,
    );
    assert!(matches!(dup, Err(AppError::Internal)));
}

#[test]
fn templates_are_listed_newest_first() {
    let mut repo = MemRepo::new();
    for (id, now) in [(1u128, 10i64), (2, 30), (3, 20)] {
        repo.create_template_with(
            NewTemplate {
                schedule_id: 4,
                name: format!("t{id}"),
                definition: "{\"slots\":[]}".to_string(),
                created_by: 1,
            },
            id,
            now,
        )
        .unwrap();
    }
    let ids: Vec<u128> = repo.list_templates(4).iter().map(|t| t.id).collect();
    assert_eq!(ids, vec![2, 3, 1]);
    assert_eq!(repo.get_template(3).unwrap().name, "t3");
    assert!(repo.get_template(9).is_none());
    assert!(repo.list_templates(5).is_empty());
}

#[test]
fn users_are_found_by_id() {
    let mut repo = MemRepo::new();
    let id = user(&mut repo, "a@example.com");
    assert_eq!(repo.get_user(id).unwrap().email, "a@example.com");
    assert!(repo.get_user(id.wrapping_add(1)).is_none());
    let taken = repo.create_user_with(
        NewUser { email: "b@example.com".to_string(), password_hash: "h".to_string(), is_superadmin: false },
        id,
        0,
    );
    assert!(matches!(taken, Err(AppError::Internal)));
}
