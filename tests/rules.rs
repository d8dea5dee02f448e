use buddy_schedule::access::{
    authorize_assign, authorize_comment, require_admin_or_superadmin, require_member_or_superadmin,
    require_same_schedule, AuthUser,
};
use buddy_schedule::error::AppError;
use buddy_schedule::models::{Period, ScheduleRole};
use buddy_schedule::text::{required_text, trimmed_string};

#[test]
fn role_and_period_tags() {
    assert_eq!(ScheduleRole::Admin.as_str(), "admin");
    assert_eq!(ScheduleRole::User.as_str(), "user");
    assert_eq!(ScheduleRole::from_tag("admin"), Some(ScheduleRole::Admin));
    assert_eq!(ScheduleRole::from_tag("user"), Some(ScheduleRole::User));
    assert_eq!(ScheduleRole::from_tag("Admin"), None);
    assert_eq!(Period::Morning.as_str(), "morning");
    assert_eq!(Period::Afternoon.as_str(), "afternoon");
    assert_eq!(Period::Night.as_str(), "night");
    assert_eq!(Period::Sleep.as_str(), "sleep");
    assert_eq!(Period::from_tag("sleep"), Some(Period::Sleep));
    assert_eq!(Period::from_tag("night"), Some(Period::Night));
    assert_eq!(Period::from_tag("noon"), None);
}

#[test]
fn membership_checks() {
    let member = AuthUser { id: 1, is_superadmin: false };
    let root = AuthUser { id: 2, is_superadmin: true };
    assert_eq!(require_member_or_superadmin(root, None).unwrap(), ScheduleRole::Admin);
    assert_eq!(require_member_or_superadmin(member, Some(ScheduleRole::User)).unwrap(), ScheduleRole::User);
    assert!(matches!(require_member_or_superadmin(member, None), Err(AppError::Forbidden)));
    assert!(require_admin_or_superadmin(root, None).is_ok());
    assert!(require_admin_or_superadmin(member, Some(ScheduleRole::Admin)).is_ok());
    assert!(matches!(require_admin_or_superadmin(member, Some(ScheduleRole::User)), Err(AppError::Forbidden)));
    assert!(matches!(require_admin_or_superadmin(member, None), Err(AppError::Forbidden)));
}

#[test]
fn member_assigns_only_themselves() {
    let member = AuthUser { id: 1, is_superadmin: false };
    assert!(matches!(authorize_assign(member, ScheduleRole::User, Some(2)), Err(AppError::Forbidden)));
    assert_eq!(authorize_assign(member, ScheduleRole::User, Some(1)).unwrap(), 1);
    assert_eq!(authorize_assign(member, ScheduleRole::User, None).unwrap(), 1);
    assert_eq!(authorize_assign(member, ScheduleRole::Admin, Some(2)).unwrap(), 2);
    let root = AuthUser { id: 3, is_superadmin: true };
    assert_eq!(authorize_assign(root, ScheduleRole::User, Some(2)).unwrap(), 2);
}

#[test]
fn only_assignee_admin_or_superadmin_comment() {
    let member = AuthUser { id: 1, is_superadmin: false };
    assert!(authorize_comment(member, ScheduleRole::User, Some(1)).is_ok());
    assert!(matches!(authorize_comment(member, ScheduleRole::User, Some(2)), Err(AppError::Forbidden)));
    assert!(matches!(authorize_comment(member, ScheduleRole::User, None), Err(AppError::Forbidden)));
    assert!(authorize_comment(member, ScheduleRole::Admin, None).is_ok());
    let root = AuthUser { id: 3, is_superadmin: true };
    assert!(authorize_comment(root, ScheduleRole::User, None).is_ok());
}

#[test]
fn template_must_belong_to_schedule() {
    assert!(require_same_schedule(4, 4).is_ok());
    assert!(matches!(require_same_schedule(4, 5), Err(AppError::Forbidden)));
}

#[test]
fn required_text_is_trimmed() {
    assert_eq!(required_text("  Care  ", "name is required").unwrap(), "Care");
    match required_text(" \t ", "name is required") {
        Err(AppError::BadRequest(m)) => assert_eq!(m, "name is required"),
        _ => panic!("expected BadRequest"),
    }
    assert_eq!(trimmed_string(" pet "), "pet");
}
