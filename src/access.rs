//! The authorization rules: who may read or change what on a schedule.
use vstd::prelude::*;
use crate::error::{AppError, AppResult};
use crate::models::{Id, ScheduleRole};

verus! {

/// An authenticated caller: its identity and its system-wide privilege.
#[derive(Clone, Copy, Debug, PartialEq, Eq, Structural)]
pub struct AuthUser {
    pub id: Id,
    pub is_superadmin: bool,
}

/// The caller's effective role on a schedule, given its membership there.
pub open spec fn member_decision(caller: AuthUser, membership: Option<ScheduleRole>) -> AppResult<
    ScheduleRole,
> {
    if caller.is_superadmin {
        Ok(ScheduleRole::Admin)
    } else {
        match membership {
            Some(role) => Ok(role),
            None => Err(AppError::Forbidden),
        }
    }
}

pub open spec fn admin_decision(caller: AuthUser, membership: Option<ScheduleRole>) -> AppResult<()> {
    if caller.is_superadmin || membership == Some(ScheduleRole::Admin) {
        Ok(())
    } else {
        Err(AppError::Forbidden)
    }
}

/// Who a shift goes to: the caller by default; another user only on the
/// word of an Admin or a superadmin.
pub open spec fn assign_decision(caller: AuthUser, role: ScheduleRole, requested: Option<Id>) -> AppResult<
    Id,
> {
    let target = match requested {
        Some(t) => t,
        None => caller.id,
    };
    if target == caller.id || caller.is_superadmin || role == ScheduleRole::Admin {
        Ok(target)
    } else {
        Err(AppError::Forbidden)
    }
}

pub open spec fn comment_decision(caller: AuthUser, role: ScheduleRole, assigned: Option<Id>) -> AppResult<()> {
    if caller.is_superadmin || role == ScheduleRole::Admin || assigned == Some(caller.id) {
        Ok(())
    } else {
        Err(AppError::Forbidden)
    }
}

/// Superadmins act as Admin with no lookup; anyone else needs a membership,
/// whose role is returned, or is Forbidden.
pub fn require_member_or_superadmin(caller: AuthUser, membership: Option<ScheduleRole>) -> (r:
    AppResult<ScheduleRole>)
    ensures
        r == member_decision(caller, membership),
{
    if caller.is_superadmin {
        return Ok(ScheduleRole::Admin);
    }
    match membership {
        Some(role) => Ok(role),
        None => Err(AppError::Forbidden),
    }
}

/// Superadmins pass; anyone else must hold Admin on the schedule.
pub fn require_admin_or_superadmin(caller: AuthUser, membership: Option<ScheduleRole>) -> (r:
    AppResult<()>)
    ensures
        r == admin_decision(caller, membership),
{
    if caller.is_superadmin {
        return Ok(());
    }
    match membership {
        Some(ScheduleRole::Admin) => Ok(()),
        _ => Err(AppError::Forbidden),
    }
}

/// Decides an assignment by a caller holding `role` (its effective role, as
/// `require_member_or_superadmin` gives it) and returns the assignee.
pub fn authorize_assign(caller: AuthUser, role: ScheduleRole, requested: Option<Id>) -> (r:
    AppResult<Id>)
    ensures
        r == assign_decision(caller, role, requested),
{
    let target = match requested {
        Some(t) => t,
        None => caller.id,
    };
    if target != caller.id && !(caller.is_superadmin || role == ScheduleRole::Admin) {
        return Err(AppError::Forbidden);
    }
    Ok(target)
}

/// Decides whether a member holding `role` may comment on a shift assigned
/// to `assigned`: superadmins, Admins and the assignee may.
pub fn authorize_comment(caller: AuthUser, role: ScheduleRole, assigned: Option<Id>) -> (r:
    AppResult<()>)
    ensures
        r == comment_decision(caller, role, assigned),
{
    if !caller.is_superadmin && role != ScheduleRole::Admin && assigned != Some(caller.id) {
        return Err(AppError::Forbidden);
    }
    Ok(())
}

/// A template may be applied only through the schedule that owns it.
pub fn require_same_schedule(owner: Id, schedule_id: Id) -> (r: AppResult<()>)
    ensures
        r is Ok <==> owner == schedule_id,
        r is Err ==> (r matches Err(AppError::Forbidden)),
{
    if owner != schedule_id {
        return Err(AppError::Forbidden);
    }
    Ok(())
}

} // verus!
