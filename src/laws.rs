//! Properties that hold across operations of the store and the rule engines.
use vstd::prelude::*;
use crate::access::{assign_decision, member_decision, AuthUser};
use crate::auth::{login_decision, normalized_email, password_check};
use crate::error::{is_conflict, AppError, AppResult};
use crate::models::{Id, Schedule, ScheduleRole, ScheduleWithRole, Shift, User};
use crate::repo::{
    add_member_outcome, has_schedule_members, shifts_created, email_lookup, email_taken, has_member, lemma_email_at, lemma_member_at,
    role_of, schedules_of, shift_record, shifts_in, user_record, Membership, NewShift, NewUser,
    RepoView, UserRow,
};
use crate::table::{has_key, lookup, sorted, unique_keys, Row};

verus! {

/// Registering with a valid email and password and then logging in with the
/// same credentials grants the identity of the user just created: the email is
/// found under its normalised form and the stored hash accepts the password.
pub proof fn lemma_register_then_login(
    before: RepoView,
    after: RepoView,
    email: Seq<char>,
    password: Seq<char>,
    password_hash: String,
    user: User,
)
    requires
        before.wf(),
        after.wf(),
        normalized_email(email).len() != 0,
        password_check(password, password_hash@) == Some(true),
        !email_taken(before.users, normalized_email(email)),
        user.email@ == normalized_email(email),
        before.user_added(after, UserRow { user, password_hash }),
    ensures
        email_lookup(after.users, normalized_email(email)) == Some((user, password_hash)),
        login_decision(email_lookup(after.users, normalized_email(email)), password) == Ok::<
            AuthUser,
            AppError,
        >(AuthUser { id: user.id, is_superadmin: user.is_superadmin }),
{
    let i = before.users.len() as int;
    assert(after.users[i] == UserRow { user, password_hash });
    lemma_email_at(after.users, i);
}

/// The first account created on an empty store is the superadmin; once it
/// exists the store is never empty again, so no later account is.
pub proof fn lemma_first_user_is_superadmin(
    before: RepoView,
    after: RepoView,
    nu: NewUser,
    user: User,
)
    requires
        before.wf(),
        nu.is_superadmin == (before.users.len() == 0),
        user == user_record(nu, user.id, user.created_at),
        before.user_added(after, UserRow { user, password_hash: nu.password_hash }),
    ensures
        user.is_superadmin <==> before.users.len() == 0,
        after.users.len() == before.users.len() + 1,
        after.users.len() > 0,
{
}

proof fn lemma_schedules_of_contains(ss: Seq<Schedule>, ms: Seq<Membership>, uid: Id, i: int)
    requires
        0 <= i < ss.len(),
        role_of(ms, ss[i].id, uid) is Some,
    ensures
        schedules_of(ss, ms, uid).contains(
            ScheduleWithRole { schedule: ss[i], role: role_of(ms, ss[i].id, uid)->0 },
        ),
    decreases ss.len(),
{
    let x = ScheduleWithRole { schedule: ss[i], role: role_of(ms, ss[i].id, uid)->0 };
    let rest = schedules_of(ss.drop_last(), ms, uid);
    if i == ss.len() - 1 {
        let r = schedules_of(ss, ms, uid);
        assert(r == rest.push(x));
        assert(r[r.len() - 1] == x);
    } else {
        assert(ss.drop_last()[i] == ss[i]);
        lemma_schedules_of_contains(ss.drop_last(), ms, uid, i);
        let k = choose|k: int| 0 <= k < rest.len() && rest[k] == x;
        let r = schedules_of(ss, ms, uid);
        assert(r[k] == x);
    }
}

proof fn lemma_schedules_of_distinct(ss: Seq<Schedule>, ms: Seq<Membership>, uid: Id)
    requires
        unique_keys(ss),
    ensures
        forall|i: int|
            0 <= i < schedules_of(ss, ms, uid).len() ==> ss.contains(
                (#[trigger] schedules_of(ss, ms, uid)[i]).schedule,
            ),
        forall|i: int, j: int|
            0 <= i < schedules_of(ss, ms, uid).len() && 0 <= j < schedules_of(ss, ms, uid).len()
                && i != j ==> (#[trigger] schedules_of(ss, ms, uid)[i]).schedule.id != (
            #[trigger] schedules_of(ss, ms, uid)[j]).schedule.id,
    decreases ss.len(),
{
    if ss.len() > 0 {
        let init = ss.drop_last();
        assert(unique_keys(init)) by {
            assert forall|i: int, j: int|
                0 <= i < init.len() && 0 <= j < init.len() && i != j implies init[i].key()
                    != init[j].key() by {
                assert(init[i] == ss[i] && init[j] == ss[j]);
            }
        }
        lemma_schedules_of_distinct(init, ms, uid);
        let rest = schedules_of(init, ms, uid);
        let r = schedules_of(ss, ms, uid);
        let last = ss.last();
        assert forall|i: int| 0 <= i < rest.len() implies ss.contains(rest[i].schedule)
            && rest[i].schedule.id != last.id by {
            let k = choose|k: int| 0 <= k < init.len() && init[k] == rest[i].schedule;
            assert(ss[k] == rest[i].schedule);
            assert(ss[ss.len() - 1] == last);
        }
        assert(ss.contains(last)) by {
            assert(ss[ss.len() - 1] == last);
        }
        assert forall|i: int| 0 <= i < r.len() implies ss.contains((#[trigger] r[i]).schedule) by {
            if i < rest.len() {
                assert(r[i] == rest[i]);
            }
        }
        assert forall|i: int, j: int|
            0 <= i < r.len() && 0 <= j < r.len() && i != j implies (#[trigger] r[i]).schedule.id
                != (#[trigger] r[j]).schedule.id by {
            if i < rest.len() {
                assert(r[i] == rest[i]);
            }
            if j < rest.len() {
                assert(r[j] == rest[j]);
            }
        }
    }
}

/// Creating a schedule records its owner as Admin in the only membership row
/// that names the schedule, and the owner's list of schedules holds it
/// exactly once, with that role.
pub proof fn lemma_schedule_owner_is_admin(before: RepoView, after: RepoView, s: Schedule)
    requires
        before.wf(),
        after.wf(),
        !has_key(before.schedules, s.id),
        !has_schedule_members(before.members, s.id),
        before.schedule_added(after, s),
    ensures
        role_of(after.members, s.id, s.created_by) == Some(ScheduleRole::Admin),
        forall|i: int|
            0 <= i < after.members.len() && (#[trigger] after.members[i]).schedule_id == s.id
                ==> after.members[i] == (Membership {
                schedule_id: s.id,
                user_id: s.created_by,
                role: ScheduleRole::Admin,
            }) && i == before.members.len(),
        schedules_of(after.schedules, after.members, s.created_by).contains(
            ScheduleWithRole { schedule: s, role: ScheduleRole::Admin },
        ),
        forall|i: int, j: int|
            0 <= i < schedules_of(after.schedules, after.members, s.created_by).len() && 0 <= j
                < schedules_of(after.schedules, after.members, s.created_by).len() && (
            #[trigger] schedules_of(after.schedules, after.members, s.created_by)[i]).schedule.id
                == s.id && (#[trigger] schedules_of(
                after.schedules,
                after.members,
                s.created_by,
            )[j]).schedule.id == s.id ==> i == j,
{
    let k = before.members.len() as int;
    assert(after.members[k] == Membership {
        schedule_id: s.id,
        user_id: s.created_by,
        role: ScheduleRole::Admin,
    });
    assert forall|i: int|
        0 <= i < after.members.len() && (#[trigger] after.members[i]).schedule_id == s.id
            implies i == k by {
        if i < k {
            assert(after.members[i] == before.members[i]);
        }
    }
    lemma_member_at(after.members, k);
    let p = choose|p: int|
        0 <= p <= before.schedules.len() && after.schedules == before.schedules.insert(p, s);
    assert(after.schedules[p] == s);
    lemma_schedules_of_contains(after.schedules, after.members, s.created_by, p);
    lemma_schedules_of_distinct(after.schedules, after.members, s.created_by);
}

/// Adding the same (schedule, user) membership twice: the second attempt is a
/// Conflict and leaves the store as the first left it.
pub proof fn lemma_add_member_twice(
    v0: RepoView,
    v1: RepoView,
    v2: RepoView,
    schedule_id: Id,
    user_id: Id,
    role: ScheduleRole,
    second_role: ScheduleRole,
    r1: AppResult<()>,
    r2: AppResult<()>,
)
    requires
        v0.wf(),
        add_member_outcome(v0, v1, schedule_id, user_id, role, r1),
        r1 is Ok,
        add_member_outcome(v1, v2, schedule_id, user_id, second_role, r2),
    ensures
        is_conflict(r2),
        v2 == v1,
        role_of(v2.members, schedule_id, user_id) == Some(role),
{
    let k = v0.members.len() as int;
    assert(v1.members[k] == Membership { schedule_id, user_id, role });
    assert(has_member(v1.members, schedule_id, user_id));
    assert(crate::repo::members_unique(v1.members)) by {
        let ms = v1.members;
        assert forall|i: int, j: int|
            0 <= i < ms.len() && 0 <= j < ms.len() && i != j implies !(ms[i].schedule_id
                == ms[j].schedule_id && ms[i].user_id == ms[j].user_id) by {
            if i == k {
                assert(ms[j] == v0.members[j]);
            } else if j == k {
                assert(ms[i] == v0.members[i]);
            } else {
                assert(ms[i] == v0.members[i] && ms[j] == v0.members[j]);
            }
        }
    }
    lemma_member_at(v1.members, k);
}

/// The shifts listed for a window are exactly the schedule's shifts that
/// start in `[from, to)`, in ascending order of start.
pub proof fn lemma_list_shifts_window(ss: Seq<Shift>, schedule_id: Id, from: int, to: int)
    requires
        sorted(ss),
    ensures
        sorted(shifts_in(ss, schedule_id, from, to)),
        forall|i: int|
            0 <= i < shifts_in(ss, schedule_id, from, to).len() ==> {
                let s = #[trigger] shifts_in(ss, schedule_id, from, to)[i];
                s.schedule_id == schedule_id && from <= s.starts_at < to && ss.contains(s)
            },
        forall|j: int|
            0 <= j < ss.len() && ss[j].schedule_id == schedule_id && from <= ss[j].starts_at < to
                ==> shifts_in(ss, schedule_id, from, to).contains(#[trigger] ss[j]),
    decreases ss.len(),
{
    if ss.len() > 0 {
        let init = ss.drop_last();
        assert(sorted(init));
        lemma_list_shifts_window(init, schedule_id, from, to);
        let rest = shifts_in(init, schedule_id, from, to);
        let r = shifts_in(ss, schedule_id, from, to);
        let last = ss.last();
        assert forall|i: int| 0 <= i < rest.len() implies rest[i].starts_at <= last.starts_at by {
            let s = rest[i];
            assert(init.contains(s));
            let k = choose|k: int| 0 <= k < init.len() && init[k] == s;
            assert(ss[k] == s);
        }
        assert forall|i: int| 0 <= i < rest.len() implies ss.contains(#[trigger] rest[i]) by {
            let k = choose|k: int| 0 <= k < init.len() && init[k] == rest[i];
            assert(ss[k] == rest[i]);
        }
        assert forall|j: int|
            0 <= j < ss.len() && ss[j].schedule_id == schedule_id && from <= ss[j].starts_at < to
                implies r.contains(#[trigger] ss[j]) by {
            if j == ss.len() - 1 {
                assert(r[r.len() - 1] == ss[j]);
            } else {
                assert(init[j] == ss[j]);
                let k = choose|k: int| 0 <= k < rest.len() && rest[k] == ss[j];
                assert(r[k] == ss[j]);
            }
        }
        assert(ss.contains(last)) by {
            assert(ss[ss.len() - 1] == last);
        }
    }
}

/// A member who is neither Admin nor superadmin passes the membership check
/// on a stored shift's schedule, may assign the shift to themselves, by
/// default or by name, and is Forbidden to assign it to anyone else; the shift
/// exists, so the assignment itself is then stored.
pub proof fn lemma_member_assigns_only_self(
    v: RepoView,
    shift_id: Id,
    shift: Shift,
    caller: AuthUser,
    other: Id,
)
    requires
        v.wf(),
        lookup(v.shifts, shift_id) == Some(shift),
        role_of(v.members, shift.schedule_id, caller.id) == Some(ScheduleRole::User),
        !caller.is_superadmin,
        other != caller.id,
    ensures
        member_decision(caller, role_of(v.members, shift.schedule_id, caller.id)) == Ok::<
            ScheduleRole,
            AppError,
        >(ScheduleRole::User),
        assign_decision(caller, ScheduleRole::User, Some(other)) == Err::<Id, AppError>(
            AppError::Forbidden,
        ),
        assign_decision(caller, ScheduleRole::User, Some(caller.id)) == Ok::<Id, AppError>(
            caller.id,
        ),
        assign_decision(caller, ScheduleRole::User, None) == Ok::<Id, AppError>(caller.id),
        has_key(v.shifts, shift_id),
{
}

/// Storing the same expansion twice stores two full sets of shifts: for each
/// slot, two rows with the same schedule, times, period and creator under
/// distinct identifiers, beside every shift there was before. Nothing is
/// deduplicated.
pub proof fn lemma_apply_twice_duplicates(
    v0: RepoView,
    v1: RepoView,
    v2: RepoView,
    specs: Seq<NewShift>,
    first: Seq<Shift>,
    second: Seq<Shift>,
)
    requires
        v0.wf(),
        shifts_created(v0, v1, specs, first),
        shifts_created(v1, v2, specs, second),
    ensures
        first.len() == specs.len(),
        second.len() == specs.len(),
        forall|i: int|
            0 <= i < specs.len() ==> {
                &&& (#[trigger] first[i]).schedule_id == second[i].schedule_id
                &&& first[i].starts_at == second[i].starts_at
                &&& first[i].ends_at == second[i].ends_at
                &&& first[i].period == second[i].period
                &&& first[i].created_by == second[i].created_by
                &&& first[i].schedule_id == specs[i].schedule_id
                &&& first[i].starts_at == specs[i].starts_at
                &&& first[i].ends_at == specs[i].ends_at
                &&& first[i].period == specs[i].period
            },
        forall|i: int, j: int|
            0 <= i < specs.len() && 0 <= j < specs.len() ==> (#[trigger] first[i]).id != (
            #[trigger] second[j]).id,
        forall|i: int|
            0 <= i < specs.len() ==> v2.shifts.contains(#[trigger] first[i]) && v2.shifts.contains(
                second[i],
            ),
        forall|k: int| 0 <= k < v0.shifts.len() ==> v2.shifts.contains(#[trigger] v0.shifts[k]),
        v2.shifts.len() == v0.shifts.len() + 2 * specs.len(),
{
    assert forall|i: int| 0 <= i < specs.len() implies v2.shifts.contains(#[trigger] first[i]) by {
        assert(v1.shifts.contains(first[i]));
        let k = choose|k: int| 0 <= k < v1.shifts.len() && v1.shifts[k] == first[i];
        assert(v2.shifts.contains(v1.shifts[k]));
    }
    assert forall|k: int| 0 <= k < v0.shifts.len() implies v2.shifts.contains(
        #[trigger] v0.shifts[k],
    ) by {
        assert(v1.shifts.contains(v0.shifts[k]));
        let m = choose|m: int| 0 <= m < v1.shifts.len() && v1.shifts[m] == v0.shifts[k];
        assert(v2.shifts.contains(v1.shifts[m]));
    }
    assert forall|i: int, j: int| 0 <= i < specs.len() && 0 <= j < specs.len() implies (
    #[trigger] first[i]).id != (#[trigger] second[j]).id by {
        assert(v1.shifts.contains(first[i]));
        let k = choose|k: int| 0 <= k < v1.shifts.len() && v1.shifts[k] == first[i];
        assert(v1.shifts[k].key() == first[i].id);
        assert(!has_key(v1.shifts, second[j].id));
    }
    assert forall|i: int| 0 <= i < specs.len() implies {
        &&& (#[trigger] first[i]).schedule_id == second[i].schedule_id
        &&& first[i].starts_at == second[i].starts_at
        &&& first[i].ends_at == second[i].ends_at
        &&& first[i].period == second[i].period
        &&& first[i].created_by == second[i].created_by
        &&& first[i].schedule_id == specs[i].schedule_id
        &&& first[i].starts_at == specs[i].starts_at
        &&& first[i].ends_at == specs[i].ends_at
        &&& first[i].period == specs[i].period
    } by {
        assert(first[i] == shift_record(specs[i], first[i].id, first[i].created_at));
        assert(second[i] == shift_record(specs[i], second[i].id, second[i].created_at));
    }
}

} // verus!
