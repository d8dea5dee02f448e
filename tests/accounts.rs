use buddy_schedule::access::AuthUser;
use buddy_schedule::auth::{
    hash_password, login_identity, new_account, normalize_email, validate_registration,
    verify_password,
};
use buddy_schedule::error::AppError;
use buddy_schedule::repo::{MemRepo, NewSchedule};
use buddy_schedule::models::ScheduleRole;

#[test]
fn password_roundtrip() {
    let hash = hash_password("secret123").unwrap();
    assert!(verify_password("secret123", &hash).unwrap());
    assert!(!verify_password("wrong", &hash).unwrap());
}

#[test]
fn verify_rejects_malformed_hash() {
    assert!(matches!(verify_password("secret123", "not a phc string"), Err(AppError::Internal)));
}

#[test]
fn email_is_trimmed_and_lowercased() {
    assert_eq!(normalize_email("  A@Example.COM \n"), "a@example.com");
}

#[test]
fn registration_rejects_short_password_and_empty_email() {
    assert!(matches!(validate_registration("a@example.com", "short"), Err(AppError::BadRequest(_))));
    assert!(matches!(validate_registration("   ", "password1"), Err(AppError::BadRequest(_))));
    assert_eq!(validate_registration(" A@example.com", "password1").unwrap(), "a@example.com");
    // eight characters are enough; length counts characters, not bytes
    assert!(validate_registration("a@example.com", "12345678").is_ok());
    assert!(matches!(validate_registration("a@example.com", "ééééé"), Err(AppError::BadRequest(_))));
    assert!(validate_registration("a@example.com", "éééééééé").is_ok());
}

#[test]
fn register_login_and_create_schedule() {
    let mut repo = MemRepo::new();

    // Register
    let email = validate_registration("a@example.com", "password1").unwrap();
    let hash = hash_password("password1").unwrap();
    let nu = new_account(email, hash, repo.count_users());
    let user = repo.create_user(nu).unwrap();
    assert!(user.is_superadmin);

    // Log in
    let found = repo.find_user_by_email(&normalize_email("a@example.com"));
    let caller = login_identity(found, "password1").unwrap();
    assert_eq!(caller, AuthUser { id: user.id, is_superadmin: true });

    // Create schedule
    let schedule = repo
        .create_schedule(NewSchedule {
            name: "Care".to_string(),
            subject_type: "pet".to_string(),
            subject_name: "Puppy".to_string(),
            created_by: caller.id,
        })
        .unwrap();
    assert_eq!(schedule.name, "Care");
    assert_eq!(repo.get_schedule_role(schedule.id, caller.id), Some(ScheduleRole::Admin));
}

#[test]
fn login_fails_on_wrong_password_or_unknown_email() {
    let mut repo = MemRepo::new();
    let hash = hash_password("password1").unwrap();
    repo.create_user(new_account("b@example.com".to_string(), hash, 0)).unwrap();
    let found = repo.find_user_by_email("b@example.com");
    assert!(matches!(login_identity(found, "password2"), Err(AppError::Unauthorized)));
    let missing = repo.find_user_by_email("nobody@example.com");
    assert!(missing.is_none());
    assert!(matches!(login_identity(missing, "password1"), Err(AppError::Unauthorized)));
}

#[test]
fn first_user_is_superadmin_later_ones_are_not() {
    let mut repo = MemRepo::new();
    let first = repo
        .create_user(new_account("a@example.com".to_string(), "h1".to_string(), repo.count_users()))
        .unwrap();
    let second = repo
        .create_user(new_account("b@example.com".to_string(), "h2".to_string(), repo.count_users()))
        .unwrap();
    let third = repo
        .create_user(new_account("c@example.com".to_string(), "h3".to_string(), repo.count_users()))
        .unwrap();
    assert!(first.is_superadmin);
    assert!(!second.is_superadmin);
    assert!(!third.is_superadmin);
    assert_eq!(repo.count_users(), 3);
}

#[test]
fn duplicate_email_is_conflict() {
    let mut repo = MemRepo::new();
    repo.create_user(new_account("a@example.com".to_string(), "h".to_string(), 0)).unwrap();
    let again = repo.create_user(new_account("a@example.com".to_string(), "h2".to_string(), 1));
    assert!(matches!(again, Err(AppError::Conflict(_))));
    assert_eq!(repo.count_users(), 1);
    let (_, stored_hash) = repo.find_user_by_email("a@example.com").unwrap();
    assert_eq!(stored_hash, "h");
}
