//! The in-memory store: every persistence operation, with its contract over
//! a view of the tables.
use vstd::prelude::*;
use crate::clock::now_micros;
use crate::error::{conflict, AppError, AppResult, is_conflict};
use crate::text::same_text;
use crate::models::{
    Id, Period, RotationTemplate, Schedule, ScheduleRole, ScheduleWithRole, Shift, ShiftComment,
    User,
};
use crate::table::{
    find_row, has_key, inserted, insert_ranked, lemma_insert_keys, lemma_lookup_at,
    lemma_push_keys, lookup, position, sorted, unique_keys, Row,
};

verus! {

/// Input of `create_user`; the email is already normalised by the caller.
#[derive(Clone, Debug)]
pub struct NewUser {
    pub email: String,
    pub password_hash: String,
    pub is_superadmin: bool,
}

/// Input of `create_schedule`.
#[derive(Clone, Debug)]
pub struct NewSchedule {
    pub name: String,
    pub subject_type: String,
    pub subject_name: String,
    pub created_by: Id,
}

/// Input of `create_shift`.
#[derive(Clone, Copy, Debug)]
pub struct NewShift {
    pub schedule_id: Id,
    pub starts_at: i64,
    pub ends_at: i64,
    pub period: Period,
    pub created_by: Id,
}

/// Input of `add_shift_comment`.
#[derive(Clone, Debug)]
pub struct NewShiftComment {
    pub shift_id: Id,
    pub user_id: Id,
    pub body: String,
}

/// Input of `create_template`.
#[derive(Clone, Debug)]
pub struct NewTemplate {
    pub schedule_id: Id,
    pub name: String,
    pub definition: String,
    pub created_by: Id,
}

/// A stored user with the hash of its password.
#[derive(Clone, Debug)]
pub struct UserRow {
    pub user: User,
    pub password_hash: String,
}

/// The role of one user on one schedule.
#[derive(Clone, Copy, Debug, PartialEq, Eq, Structural)]
pub struct Membership {
    pub schedule_id: Id,
    pub user_id: Id,
    pub role: ScheduleRole,
}

impl Row for UserRow {
    open spec fn key(&self) -> Id {
        self.user.id
    }

    open spec fn rank(&self) -> int {
        0
    }

    fn key_of(&self) -> (r: Id) {
        self.user.id
    }

    fn rank_of(&self) -> (r: i128) {
        0
    }

    fn copy_row(&self) -> (r: Self) {
        UserRow { user: self.user.duplicate(), password_hash: self.password_hash.clone() }
    }
}

/// Schedules are listed newest first.
impl Row for Schedule {
    open spec fn key(&self) -> Id {
        self.id
    }

    open spec fn rank(&self) -> int {
        -self.created_at
    }

    fn key_of(&self) -> (r: Id) {
        self.id
    }

    fn rank_of(&self) -> (r: i128) {
        -(self.created_at as i128)
    }

    fn copy_row(&self) -> (r: Self) {
        self.duplicate()
    }
}

/// Shifts are listed by start, earliest first.
impl Row for Shift {
    open spec fn key(&self) -> Id {
        self.id
    }

    open spec fn rank(&self) -> int {
        self.starts_at as int
    }

    fn key_of(&self) -> (r: Id) {
        self.id
    }

    fn rank_of(&self) -> (r: i128) {
        self.starts_at as i128
    }

    fn copy_row(&self) -> (r: Self) {
        self.duplicate()
    }
}

/// Comments are listed oldest first.
impl Row for ShiftComment {
    open spec fn key(&self) -> Id {
        self.id
    }

    open spec fn rank(&self) -> int {
        self.created_at as int
    }

    fn key_of(&self) -> (r: Id) {
        self.id
    }

    fn rank_of(&self) -> (r: i128) {
        self.created_at as i128
    }

    fn copy_row(&self) -> (r: Self) {
        self.duplicate()
    }
}

/// Templates are listed newest first.
impl Row for RotationTemplate {
    open spec fn key(&self) -> Id {
        self.id
    }

    open spec fn rank(&self) -> int {
        -self.created_at
    }

    fn key_of(&self) -> (r: Id) {
        self.id
    }

    fn rank_of(&self) -> (r: i128) {
        -(self.created_at as i128)
    }

    fn copy_row(&self) -> (r: Self) {
        self.duplicate()
    }
}

/// The tables of the store, as sequences.
pub struct RepoView {
    pub users: Seq<UserRow>,
    pub schedules: Seq<Schedule>,
    pub members: Seq<Membership>,
    pub shifts: Seq<Shift>,
    pub comments: Seq<ShiftComment>,
    pub templates: Seq<RotationTemplate>,
}

pub open spec fn email_taken(users: Seq<UserRow>, email: Seq<char>) -> bool {
    exists|i: int| 0 <= i < users.len() && users[i].user.email@ == email
}

pub open spec fn emails_unique(users: Seq<UserRow>) -> bool {
    forall|i: int, j: int|
        0 <= i < users.len() && 0 <= j < users.len() && i != j ==> users[i].user.email@
            != users[j].user.email@
}

/// The stored user with this email, with its password hash.
pub open spec fn user_by_email(users: Seq<UserRow>, email: Seq<char>) -> Option<UserRow> {
    if email_taken(users, email) {
        Some(users[choose|i: int| 0 <= i < users.len() && users[i].user.email@ == email])
    } else {
        None
    }
}

/// What `find_user_by_email` returns: the user with its password hash.
pub open spec fn email_lookup(users: Seq<UserRow>, email: Seq<char>) -> Option<(User, String)> {
    match user_by_email(users, email) {
        Some(row) => Some((row.user, row.password_hash)),
        None => None,
    }
}

pub open spec fn has_member(ms: Seq<Membership>, sid: Id, uid: Id) -> bool {
    exists|i: int| 0 <= i < ms.len() && ms[i].schedule_id == sid && ms[i].user_id == uid
}

/// Some membership row names schedule `sid`.
pub open spec fn has_schedule_members(ms: Seq<Membership>, sid: Id) -> bool {
    exists|i: int| 0 <= i < ms.len() && ms[i].schedule_id == sid
}

pub open spec fn members_unique(ms: Seq<Membership>) -> bool {
    forall|i: int, j: int|
        0 <= i < ms.len() && 0 <= j < ms.len() && i != j ==> !(ms[i].schedule_id
            == ms[j].schedule_id && ms[i].user_id == ms[j].user_id)
}

/// The role of user `uid` on schedule `sid`, if it is a member.
pub open spec fn role_of(ms: Seq<Membership>, sid: Id, uid: Id) -> Option<ScheduleRole> {
    if has_member(ms, sid, uid) {
        Some(
            ms[choose|i: int|
                0 <= i < ms.len() && ms[i].schedule_id == sid && ms[i].user_id == uid].role,
        )
    } else {
        None
    }
}

/// The schedules on which `uid` holds a role, in table order, with that role.
pub open spec fn schedules_of(ss: Seq<Schedule>, ms: Seq<Membership>, uid: Id) -> Seq<
    ScheduleWithRole,
>
    decreases ss.len(),
{
    if ss.len() == 0 {
        Seq::empty()
    } else {
        let rest = schedules_of(ss.drop_last(), ms, uid);
        match role_of(ms, ss.last().id, uid) {
            Some(role) => rest.push(ScheduleWithRole { schedule: ss.last(), role }),
            None => rest,
        }
    }
}

/// The members of schedule `sid` that are stored users, in the order they joined.
pub open spec fn members_of(ms: Seq<Membership>, users: Seq<UserRow>, sid: Id) -> Seq<
    (User, ScheduleRole),
>
    decreases ms.len(),
{
    if ms.len() == 0 {
        Seq::empty()
    } else {
        let rest = members_of(ms.drop_last(), users, sid);
        let m = ms.last();
        if m.schedule_id == sid {
            match lookup(users, m.user_id) {
                Some(row) => rest.push((row.user, m.role)),
                None => rest,
            }
        } else {
            rest
        }
    }
}

/// The shifts of schedule `sid` that start in `[from, to)`, in table order.
pub open spec fn shifts_in(ss: Seq<Shift>, sid: Id, from: int, to: int) -> Seq<Shift>
    decreases ss.len(),
{
    if ss.len() == 0 {
        Seq::empty()
    } else {
        let rest = shifts_in(ss.drop_last(), sid, from, to);
        let s = ss.last();
        if s.schedule_id == sid && from <= s.starts_at && s.starts_at < to {
            rest.push(s)
        } else {
            rest
        }
    }
}

/// The comments on shift `shift_id`, in table order.
pub open spec fn comments_on(cs: Seq<ShiftComment>, shift_id: Id) -> Seq<ShiftComment>
    decreases cs.len(),
{
    if cs.len() == 0 {
        Seq::empty()
    } else {
        let rest = comments_on(cs.drop_last(), shift_id);
        if cs.last().shift_id == shift_id {
            rest.push(cs.last())
        } else {
            rest
        }
    }
}

/// The templates of schedule `sid`, in table order.
pub open spec fn templates_of(ts: Seq<RotationTemplate>, sid: Id) -> Seq<RotationTemplate>
    decreases ts.len(),
{
    if ts.len() == 0 {
        Seq::empty()
    } else {
        let rest = templates_of(ts.drop_last(), sid);
        if ts.last().schedule_id == sid {
            rest.push(ts.last())
        } else {
            rest
        }
    }
}

pub open spec fn user_record(nu: NewUser, id: Id, now: i64) -> User {
    User { id, email: nu.email, is_superadmin: nu.is_superadmin, created_at: now }
}

pub open spec fn schedule_record(ns: NewSchedule, id: Id, now: i64) -> Schedule {
    Schedule {
        id,
        name: ns.name,
        subject_type: ns.subject_type,
        subject_name: ns.subject_name,
        created_by: ns.created_by,
        created_at: now,
    }
}

pub open spec fn shift_record(ns: NewShift, id: Id, now: i64) -> Shift {
    Shift {
        id,
        schedule_id: ns.schedule_id,
        starts_at: ns.starts_at,
        ends_at: ns.ends_at,
        period: ns.period,
        assigned_user_id: None,
        created_by: ns.created_by,
        created_at: now,
    }
}

pub open spec fn comment_record(nc: NewShiftComment, id: Id, now: i64) -> ShiftComment {
    ShiftComment {
        id,
        shift_id: nc.shift_id,
        user_id: nc.user_id,
        body: nc.body,
        created_at: now,
    }
}

pub open spec fn template_record(nt: NewTemplate, id: Id, now: i64) -> RotationTemplate {
    RotationTemplate {
        id,
        schedule_id: nt.schedule_id,
        name: nt.name,
        definition: nt.definition,
        created_by: nt.created_by,
        created_at: now,
    }
}

/// What `add_member` does: a pair already present is a Conflict and changes
/// nothing; otherwise the membership is appended.
pub open spec fn add_member_outcome(
    before: RepoView,
    after: RepoView,
    schedule_id: Id,
    user_id: Id,
    role: ScheduleRole,
    r: AppResult<()>,
) -> bool {
    if has_member(before.members, schedule_id, user_id) {
        is_conflict(r) && after == before
    } else {
        r is Ok && after == (RepoView {
            members: before.members.push(Membership { schedule_id, user_id, role }),
            ..before
        })
    }
}

/// `created` are the shifts stored by one batch insertion of `specs`, in
/// order, under fresh distinct identifiers; every earlier shift stays and
/// nothing else changes.
pub open spec fn shifts_created(
    before: RepoView,
    after: RepoView,
    specs: Seq<NewShift>,
    created: Seq<Shift>,
) -> bool {
    &&& created.len() == specs.len()
    &&& forall|i: int|
        0 <= i < created.len() ==> #[trigger] created[i] == shift_record(
            specs[i],
            created[i].id,
            created[i].created_at,
        )
    &&& forall|i: int| 0 <= i < created.len() ==> !has_key(before.shifts, #[trigger] created[i].id)
    &&& forall|i: int, j: int|
        0 <= i < created.len() && 0 <= j < created.len() && i != j ==> created[i].id
            != created[j].id
    &&& forall|i: int| 0 <= i < created.len() ==> after.shifts.contains(#[trigger] created[i])
    &&& forall|k: int|
        0 <= k < before.shifts.len() ==> after.shifts.contains(#[trigger] before.shifts[k])
    &&& after.shifts.len() == before.shifts.len() + created.len()
    &&& after == (RepoView { shifts: after.shifts, ..before })
}

impl RepoView {
    /// Keys are unique in every table, emails among users, (schedule, user)
    /// pairs among memberships; schedules, shifts, comments and templates are
    /// kept in listing order.
    pub open spec fn wf(self) -> bool {
        &&& unique_keys(self.users)
        &&& emails_unique(self.users)
        &&& unique_keys(self.schedules)
        &&& sorted(self.schedules)
        &&& members_unique(self.members)
        &&& unique_keys(self.shifts)
        &&& sorted(self.shifts)
        &&& unique_keys(self.comments)
        &&& sorted(self.comments)
        &&& unique_keys(self.templates)
        &&& sorted(self.templates)
    }

    /// Only the users table differs, by `row` added at its end.
    pub open spec fn user_added(self, next: RepoView, row: UserRow) -> bool {
        next == (RepoView { users: self.users.push(row), ..self })
    }

    /// The schedule is inserted in order and its creator is recorded as Admin.
    pub open spec fn schedule_added(self, next: RepoView, s: Schedule) -> bool {
        &&& inserted(self.schedules, next.schedules, s)
        &&& next.members == self.members.push(
            Membership { schedule_id: s.id, user_id: s.created_by, role: ScheduleRole::Admin },
        )
        &&& next.users == self.users
        &&& next.shifts == self.shifts
        &&& next.comments == self.comments
        &&& next.templates == self.templates
    }

    /// Only the shifts table differs, by `s` inserted in order.
    pub open spec fn shift_added(self, next: RepoView, s: Shift) -> bool {
        &&& inserted(self.shifts, next.shifts, s)
        &&& next == (RepoView { shifts: next.shifts, ..self })
    }

    /// Only the comments table differs, by `c` inserted in order.
    pub open spec fn comment_added(self, next: RepoView, c: ShiftComment) -> bool {
        &&& inserted(self.comments, next.comments, c)
        &&& next == (RepoView { comments: next.comments, ..self })
    }

    /// Only the templates table differs, by `t` inserted in order.
    pub open spec fn template_added(self, next: RepoView, t: RotationTemplate) -> bool {
        &&& inserted(self.templates, next.templates, t)
        &&& next == (RepoView { templates: next.templates, ..self })
    }
}

/// The in-memory store. Concurrent callers wrap it in one reader/writer lock.
pub struct MemRepo {
    users: Vec<UserRow>,
    schedules: Vec<Schedule>,
    members: Vec<Membership>,
    shifts: Vec<Shift>,
    comments: Vec<ShiftComment>,
    templates: Vec<RotationTemplate>,
}

impl View for MemRepo {
    type V = RepoView;

    closed spec fn view(&self) -> RepoView {
        RepoView {
            users: self.users@,
            schedules: self.schedules@,
            members: self.members@,
            shifts: self.shifts@,
            comments: self.comments@,
            templates: self.templates@,
        }
    }
}

/// Relies on uuid's `Uuid::new_v4` and `Uuid::as_u128`: a random identifier,
/// of which nothing is promised.
#[verifier::external_body]
fn fresh_id() -> (r: Id) {
    uuid::Uuid::new_v4().as_u128()
}

pub proof fn lemma_member_at(ms: Seq<Membership>, i: int)
    requires
        members_unique(ms),
        0 <= i < ms.len(),
    ensures
        role_of(ms, ms[i].schedule_id, ms[i].user_id) == Some(ms[i].role),
{
    let sid = ms[i].schedule_id;
    let uid = ms[i].user_id;
    assert(has_member(ms, sid, uid));
    let j = choose|j: int| 0 <= j < ms.len() && ms[j].schedule_id == sid && ms[j].user_id == uid;
    assert(j == i);
}

pub proof fn lemma_email_at(users: Seq<UserRow>, i: int)
    requires
        emails_unique(users),
        0 <= i < users.len(),
    ensures
        user_by_email(users, users[i].user.email@) == Some(users[i]),
{
    let e = users[i].user.email@;
    assert(email_taken(users, e));
    let j = choose|j: int| 0 <= j < users.len() && users[j].user.email@ == e;
    assert(j == i);
}

impl MemRepo {
    pub fn new() -> (r: MemRepo)
        ensures
            r@.wf(),
            r@.users.len() == 0,
            r@.schedules.len() == 0,
            r@.members.len() == 0,
            r@.shifts.len() == 0,
            r@.comments.len() == 0,
            r@.templates.len() == 0,
    {
        MemRepo {
            users: Vec::new(),
            schedules: Vec::new(),
            members: Vec::new(),
            shifts: Vec::new(),
            comments: Vec::new(),
            templates: Vec::new(),
        }
    }

    pub fn count_users(&self) -> (r: usize)
        ensures
            r == self@.users.len(),
    {
        self.users.len()
    }

    fn email_position(&self, email: &str) -> (r: Option<usize>)
        ensures
            match r {
                Some(i) => i < self@.users.len() && self@.users[i as int].user.email@ == email@,
                None => !email_taken(self@.users, email@),
            },
    {
        let n = self.users.len();
        let mut i: usize = 0;
        while i < n
            invariant
                n == self.users@.len(),
                i <= n,
                forall|j: int| 0 <= j < i ==> self.users@[j].user.email@ != email@,
            decreases n - i,
        {
            if same_text(self.users[i].user.email.as_str(), email) {
                return Some(i);
            }
            i = i + 1;
        }
        None
    }

    /// Adds a user under identifier `id`, created at `now`. Fails with
    /// Conflict when the email is taken, and with Internal when `id` is.
    pub fn create_user_with(&mut self, nu: NewUser, id: Id, now: i64) -> (r: AppResult<User>)
        requires
            old(self)@.wf(),
        ensures
            final(self)@.wf(),
            email_taken(old(self)@.users, nu.email@) ==> is_conflict(r) && final(self)@ == old(self)@,
            !email_taken(old(self)@.users, nu.email@) && has_key(old(self)@.users, id) ==> (r matches Err(
                AppError::Internal,
            )) && final(self)@ == old(self)@,
            !email_taken(old(self)@.users, nu.email@) && !has_key(old(self)@.users, id) ==> r == Ok::<
                User,
                AppError,
            >(user_record(nu, id, now)) && old(self)@.user_added(
                final(self)@,
                UserRow { user: user_record(nu, id, now), password_hash: nu.password_hash },
            ),
    {
        if self.email_position(nu.email.as_str()).is_some() {
            return Err(conflict("email already exists"));
        }
        if position(&self.users, id).is_some() {
            return Err(AppError::Internal);
        }
        let user = User { id, email: nu.email, is_superadmin: nu.is_superadmin, created_at: now };
        let row = UserRow { user: user.duplicate(), password_hash: nu.password_hash };
        proof {
            lemma_push_keys(self.users@, row);
            let s = self.users@.push(row);
            assert forall|i: int, j: int|
                0 <= i < s.len() && 0 <= j < s.len() && i != j implies s[i].user.email@
                    != s[j].user.email@ by {
                if i == s.len() - 1 {
                    assert(s[j] == self.users@[j]);
                } else if j == s.len() - 1 {
                    assert(s[i] == self.users@[i]);
                }
            }
        }
        self.users.push(row);
        Ok(user)
    }

    /// Adds a user under a fresh random identifier. Fails with Conflict when
    /// the email is taken; with Internal, leaving the store as it was, when
    /// the identifier drawn is already in use; on an empty store it succeeds.
    pub fn create_user(&mut self, nu: NewUser) -> (r: AppResult<User>)
        requires
            old(self)@.wf(),
        ensures
            final(self)@.wf(),
            !email_taken(old(self)@.users, nu.email@) && old(self)@.users.len() == 0 ==> r is Ok,
            email_taken(old(self)@.users, nu.email@) ==> is_conflict(r) && final(self)@ == old(self)@,
            !email_taken(old(self)@.users, nu.email@) ==> match r {
                Ok(u) => u == user_record(nu, u.id, u.created_at) && !has_key(
                    old(self)@.users,
                    u.id,
                ) && old(self)@.user_added(
                    final(self)@,
                    UserRow { user: u, password_hash: nu.password_hash },
                ),
                Err(e) => e is Internal && final(self)@ == old(self)@,
            },
    {
        let id = fresh_id();
        let now = now_micros();
        self.create_user_with(nu, id, now)
    }

    /// The user with this email, with its password hash.
    pub fn find_user_by_email(&self, email: &str) -> (r: Option<(User, String)>)
        requires
            self@.wf(),
        ensures
            r == email_lookup(self@.users, email@),
    {
        match self.email_position(email) {
            Some(i) => {
                proof {
                    lemma_email_at(self@.users, i as int);
                }
                let row = &self.users[i];
                Some((row.user.duplicate(), row.password_hash.clone()))
            },
            None => None,
        }
    }

    pub fn get_user(&self, user_id: Id) -> (r: Option<User>)
        requires
            self@.wf(),
        ensures
            r == (match lookup(self@.users, user_id) {
                Some(row) => Some(row.user),
                None => None,
            }),
    {
        match find_row(&self.users, user_id) {
            Some(row) => Some(row.user),
            None => None,
        }
    }

    fn member_position(&self, sid: Id, uid: Id) -> (r: Option<usize>)
        ensures
            match r {
                Some(i) => i < self@.members.len() && self@.members[i as int].schedule_id == sid
                    && self@.members[i as int].user_id == uid,
                None => !has_member(self@.members, sid, uid),
            },
    {
        let n = self.members.len();
        let mut i: usize = 0;
        while i < n
            invariant
                n == self.members@.len(),
                i <= n,
                forall|j: int|
                    0 <= j < i ==> !(self.members@[j].schedule_id == sid
                        && self.members@[j].user_id == uid),
            decreases n - i,
        {
            if self.members[i].schedule_id == sid && self.members[i].user_id == uid {
                return Some(i);
            }
            i = i + 1;
        }
        None
    }

    fn names_schedule(&self, sid: Id) -> (r: bool)
        ensures
            r == has_schedule_members(self@.members, sid),
    {
        let n = self.members.len();
        let mut i: usize = 0;
        while i < n
            invariant
                n == self.members@.len(),
                i <= n,
                forall|j: int| 0 <= j < i ==> self.members@[j].schedule_id != sid,
            decreases n - i,
        {
            if self.members[i].schedule_id == sid {
                return true;
            }
            i = i + 1;
        }
        false
    }

    /// Adds a schedule under identifier `id`, created at `now`, and records
    /// its creator as Admin, both or neither. Fails with Internal when `id`
    /// is already used by a schedule or named by a membership row.
    pub fn create_schedule_with(&mut self, ns: NewSchedule, id: Id, now: i64) -> (r: AppResult<
        Schedule,
    >)
        requires
            old(self)@.wf(),
        ensures
            final(self)@.wf(),
            has_key(old(self)@.schedules, id) || has_schedule_members(old(self)@.members, id)
                ==> (r matches Err(AppError::Internal)) && final(self)@ == old(self)@,
            !has_key(old(self)@.schedules, id) && !has_schedule_members(old(self)@.members, id)
                ==> r == Ok::<Schedule, AppError>(schedule_record(ns, id, now)) && old(
                self,
            )@.schedule_added(final(self)@, schedule_record(ns, id, now)),
    {
        if position(&self.schedules, id).is_some() || self.names_schedule(id) {
            return Err(AppError::Internal);
        }
        let owner = ns.created_by;
        let schedule = Schedule {
            id,
            name: ns.name,
            subject_type: ns.subject_type,
            subject_name: ns.subject_name,
            created_by: owner,
            created_at: now,
        };
        let ghost old_schedules = self.schedules@;
        insert_ranked(&mut self.schedules, schedule.duplicate());
        proof {
            let p = choose|p: int|
                0 <= p <= old_schedules.len() && self.schedules@ == old_schedules.insert(
                    p,
                    schedule,
                );
            lemma_insert_keys(old_schedules, p, schedule);
        }
        let m = Membership { schedule_id: id, user_id: owner, role: ScheduleRole::Admin };
        proof {
            let ms = self.members@.push(m);
            assert forall|i: int, j: int|
                0 <= i < ms.len() && 0 <= j < ms.len() && i != j implies !(ms[i].schedule_id
                    == ms[j].schedule_id && ms[i].user_id == ms[j].user_id) by {
                if i == ms.len() - 1 {
                    assert(ms[j] == self.members@[j]);
                } else if j == ms.len() - 1 {
                    assert(ms[i] == self.members@[i]);
                }
            }
        }
        self.members.push(m);
        Ok(schedule)
    }

    /// Adds a schedule under a fresh random identifier, with its creator as
    /// Admin. Fails with Internal, leaving the store as it was, when the
    /// identifier drawn is already in use; on an empty store it succeeds.
    pub fn create_schedule(&mut self, ns: NewSchedule) -> (r: AppResult<Schedule>)
        requires
            old(self)@.wf(),
        ensures
            final(self)@.wf(),
            old(self)@.schedules.len() == 0 && old(self)@.members.len() == 0 ==> r is Ok,
            match r {
                Ok(s) => s == schedule_record(ns, s.id, s.created_at) && !has_key(
                    old(self)@.schedules,
                    s.id,
                ) && !has_schedule_members(old(self)@.members, s.id) && old(self)@.schedule_added(
                    final(self)@,
                    s,
                ),
                Err(e) => e is Internal && final(self)@ == old(self)@,
            },
    {
        let id = fresh_id();
        let now = now_micros();
        self.create_schedule_with(ns, id, now)
    }

    /// The schedules on which `user_id` holds a role, newest first.
    pub fn list_schedules_for_user(&self, user_id: Id) -> (r: Vec<ScheduleWithRole>)
        requires
            self@.wf(),
        ensures
            r@ == schedules_of(self@.schedules, self@.members, user_id),
    {
        let mut out: Vec<ScheduleWithRole> = Vec::new();
        let n = self.schedules.len();
        let mut i: usize = 0;
        while i < n
            invariant
                n == self.schedules@.len(),
                i <= n,
                self@.wf(),
                out@ == schedules_of(self.schedules@.subrange(0, i as int), self.members@, user_id),
            decreases n - i,
        {
            let s = &self.schedules[i];
            proof {
                assert(self.schedules@.subrange(0, i as int + 1).drop_last()
                    =~= self.schedules@.subrange(0, i as int));
            }
            match self.member_position(s.id, user_id) {
                Some(k) => {
                    proof {
                        lemma_member_at(self.members@, k as int);
                    }
                    out.push(ScheduleWithRole { schedule: s.duplicate(), role: self.members[k].role });
                },
                None => {},
            }
            i = i + 1;
        }
        proof {
            assert(self.schedules@.subrange(0, n as int) =~= self.schedules@);
        }
        out
    }

    pub fn get_schedule(&self, schedule_id: Id) -> (r: Option<Schedule>)
        requires
            self@.wf(),
        ensures
            r == lookup(self@.schedules, schedule_id),
    {
        find_row(&self.schedules, schedule_id)
    }

    /// The role of `user_id` on `schedule_id`, if a member.
    pub fn get_schedule_role(&self, schedule_id: Id, user_id: Id) -> (r: Option<ScheduleRole>)
        requires
            self@.wf(),
        ensures
            r == role_of(self@.members, schedule_id, user_id),
    {
        match self.member_position(schedule_id, user_id) {
            Some(k) => {
                proof {
                    lemma_member_at(self.members@, k as int);
                }
                Some(self.members[k].role)
            },
            None => None,
        }
    }

    /// The members of a schedule with their roles, in the order they joined.
    pub fn list_schedule_members(&self, schedule_id: Id) -> (r: Vec<(User, ScheduleRole)>)
        requires
            self@.wf(),
        ensures
            r@ == members_of(self@.members, self@.users, schedule_id),
    {
        let mut out: Vec<(User, ScheduleRole)> = Vec::new();
        let n = self.members.len();
        let mut i: usize = 0;
        while i < n
            invariant
                n == self.members@.len(),
                i <= n,
                self@.wf(),
                out@ == members_of(self.members@.subrange(0, i as int), self.users@, schedule_id),
            decreases n - i,
        {
            let m = self.members[i];
            proof {
                assert(self.members@.subrange(0, i as int + 1).drop_last()
                    =~= self.members@.subrange(0, i as int));
            }
            if m.schedule_id == schedule_id {
                match find_row(&self.users, m.user_id) {
                    Some(row) => {
                        out.push((row.user, m.role));
                    },
                    None => {},
                }
            }
            i = i + 1;
        }
        proof {
            assert(self.members@.subrange(0, n as int) =~= self.members@);
        }
        out
    }

    /// Records `user_id` on `schedule_id` with `role`. Fails with Conflict,
    /// changing nothing, when the pair is already a member.
    pub fn add_member(&mut self, schedule_id: Id, user_id: Id, role: ScheduleRole) -> (r:
        AppResult<()>)
        requires
            old(self)@.wf(),
        ensures
            final(self)@.wf(),
            add_member_outcome(old(self)@, final(self)@, schedule_id, user_id, role, r),
    {
        if self.member_position(schedule_id, user_id).is_some() {
            return Err(conflict("user already in schedule"));
        }
        let m = Membership { schedule_id, user_id, role };
        proof {
            let ms = self.members@.push(m);
            assert forall|i: int, j: int|
                0 <= i < ms.len() && 0 <= j < ms.len() && i != j implies !(ms[i].schedule_id
                    == ms[j].schedule_id && ms[i].user_id == ms[j].user_id) by {
                if i == ms.len() - 1 {
                    assert(ms[j] == self.members@[j]);
                } else if j == ms.len() - 1 {
                    assert(ms[i] == self.members@[i]);
                }
            }
        }
        self.members.push(m);
        Ok(())
    }

    /// Changes the role of an existing membership. Fails with NotFound,
    /// changing nothing, when the pair is not a member.
    pub fn set_member_role(&mut self, schedule_id: Id, user_id: Id, role: ScheduleRole) -> (r:
        AppResult<()>)
        requires
            old(self)@.wf(),
        ensures
            final(self)@.wf(),
            !has_member(old(self)@.members, schedule_id, user_id) ==> (r matches Err(
                AppError::NotFound,
            )) && final(self)@ == old(self)@,
            has_member(old(self)@.members, schedule_id, user_id) ==> r is Ok && exists|i: int|
                0 <= i < old(self)@.members.len() && old(self)@.members[i].schedule_id
                    == schedule_id && old(self)@.members[i].user_id == user_id && final(self)@ == (
                RepoView {
                    members: old(self)@.members.update(
                        i,
                        Membership { schedule_id, user_id, role },
                    ),
                    ..old(self)@
                }),
    {
        match self.member_position(schedule_id, user_id) {
            None => Err(AppError::NotFound),
            Some(k) => {
                let ghost old_members = self.members@;
                self.members.set(k, Membership { schedule_id, user_id, role });
                proof {
                    assert(self.members@ == old_members.update(
                        k as int,
                        Membership { schedule_id, user_id, role },
                    ));
                    let ms = self.members@;
                    assert forall|i: int, j: int|
                        0 <= i < ms.len() && 0 <= j < ms.len() && i != j implies !(
                        ms[i].schedule_id == ms[j].schedule_id && ms[i].user_id
                            == ms[j].user_id) by {
                        if i == k {
                            assert(ms[j] == old_members[j]);
                        } else if j == k {
                            assert(ms[i] == old_members[i]);
                        } else {
                            assert(ms[i] == old_members[i] && ms[j] == old_members[j]);
                        }
                    }
                }
                Ok(())
            },
        }
    }

    /// Adds a shift under identifier `id`, created at `now`, unassigned.
    /// Fails with Internal when `id` is already used by a shift. No check is
    /// made against shifts that overlap or repeat this one.
    pub fn create_shift_with(&mut self, ns: NewShift, id: Id, now: i64) -> (r: AppResult<Shift>)
        requires
            old(self)@.wf(),
        ensures
            final(self)@.wf(),
            has_key(old(self)@.shifts, id) ==> (r matches Err(AppError::Internal)) && final(self)@
                == old(self)@,
            !has_key(old(self)@.shifts, id) ==> r == Ok::<Shift, AppError>(shift_record(ns, id, now))
                && old(self)@.shift_added(final(self)@, shift_record(ns, id, now)),
    {
        if position(&self.shifts, id).is_some() {
            return Err(AppError::Internal);
        }
        let shift = Shift {
            id,
            schedule_id: ns.schedule_id,
            starts_at: ns.starts_at,
            ends_at: ns.ends_at,
            period: ns.period,
            assigned_user_id: None,
            created_by: ns.created_by,
            created_at: now,
        };
        let ghost old_shifts = self.shifts@;
        insert_ranked(&mut self.shifts, shift.duplicate());
        proof {
            let p = choose|p: int|
                0 <= p <= old_shifts.len() && self.shifts@ == old_shifts.insert(p, shift);
            lemma_insert_keys(old_shifts, p, shift);
        }
        Ok(shift)
    }

    /// Adds a shift under a fresh random identifier. Fails with Internal,
    /// leaving the store as it was, when the identifier drawn is in use; on
    /// an empty table it succeeds.
    pub fn create_shift(&mut self, ns: NewShift) -> (r: AppResult<Shift>)
        requires
            old(self)@.wf(),
        ensures
            final(self)@.wf(),
            old(self)@.shifts.len() == 0 ==> r is Ok,
            match r {
                Ok(s) => s == shift_record(ns, s.id, s.created_at) && !has_key(
                    old(self)@.shifts,
                    s.id,
                ) && old(self)@.shift_added(final(self)@, s),
                Err(e) => e is Internal && final(self)@ == old(self)@,
            },
    {
        let id = fresh_id();
        let now = now_micros();
        self.create_shift_with(ns, id, now)
    }

    /// Stores every shift of `specs`, in order, or none: the identifiers are
    /// all drawn and checked first, and when one is already used, or drawn
    /// twice, the result is Internal and the store is left as it was. A batch
    /// of at most one shift into an empty table succeeds.
    pub fn create_shifts(&mut self, specs: &Vec<NewShift>) -> (r: AppResult<Vec<Shift>>)
        requires
            old(self)@.wf(),
        ensures
            final(self)@.wf(),
            old(self)@.shifts.len() == 0 && specs@.len() <= 1 ==> r is Ok,
            match r {
                Ok(v) => shifts_created(old(self)@, final(self)@, specs@, v@),
                Err(e) => e is Internal && final(self)@ == old(self)@,
            },
    {
        let n = specs.len();
        let mut ids: Vec<Id> = Vec::new();
        let mut i: usize = 0;
        while i < n
            invariant
                n == specs@.len(),
                i <= n,
                ids@.len() == i,
                self@.wf(),
                forall|k: int| 0 <= k < i ==> !has_key(self@.shifts, #[trigger] ids@[k]),
                forall|k: int, l: int| 0 <= k < l < i ==> ids@[k] != ids@[l],
                self@ == old(self)@,
            decreases n - i,
        {
            let id = fresh_id();
            if position(&self.shifts, id).is_some() {
                return Err(AppError::Internal);
            }
            let mut k: usize = 0;
            while k < i
                invariant
                    i == ids@.len(),
                    i < n,
                    n == specs@.len(),
                    k <= i,
                    self@ == old(self)@,
                    self@.wf(),
                    forall|m: int| 0 <= m < k ==> ids@[m] != id,
                decreases i - k,
            {
                if ids[k] == id {
                    return Err(AppError::Internal);
                }
                k = k + 1;
            }
            ids.push(id);
            i = i + 1;
        }
        let ghost before = self@;
        let mut out: Vec<Shift> = Vec::new();
        let mut j: usize = 0;
        while j < n
            invariant
                n == specs@.len(),
                n == ids@.len(),
                j <= n,
                out@.len() == j,
                self@.wf(),
                forall|k: int| 0 <= k < n ==> !has_key(before.shifts, #[trigger] ids@[k]),
                forall|k: int, l: int| 0 <= k < n && 0 <= l < n && k != l ==> ids@[k] != ids@[l],
                forall|x: Id| has_key(self@.shifts, x) <==> (has_key(before.shifts, x) || exists|k: int| 0 <= k < j && ids@[k] == x),
                forall|k: int|
                    0 <= k < j ==> #[trigger] out@[k] == shift_record(
                        specs@[k],
                        ids@[k],
                        out@[k].created_at,
                    ),
                forall|k: int| 0 <= k < j ==> self@.shifts.contains(#[trigger] out@[k]),
                forall|k: int|
                    0 <= k < before.shifts.len() ==> self@.shifts.contains(#[trigger] before.shifts[k]),
                self@.shifts.len() == before.shifts.len() + j,
                self@ == (RepoView { shifts: self@.shifts, ..before }),
            decreases n - j,
        {
            let now = now_micros();
            let ghost prev = self@;
            assert(!has_key(prev.shifts, ids@[j as int])) by {
                if has_key(prev.shifts, ids@[j as int]) {
                    if !has_key(before.shifts, ids@[j as int]) {
                        let k = choose|k: int| 0 <= k < j && ids@[k] == ids@[j as int];
                    }
                }
            }
            match self.create_shift_with(specs[j], ids[j], now) {
                Ok(shift) => {
                    proof {
                        let p = choose|p: int|
                            0 <= p <= prev.shifts.len() && self@.shifts == prev.shifts.insert(p, shift);
                        lemma_insert_keys(prev.shifts, p, shift);
                        assert forall|y: Shift| prev.shifts.contains(y) implies self@.shifts.contains(y) by {
                            let q = choose|q: int| 0 <= q < prev.shifts.len() && prev.shifts[q] == y;
                            if q < p {
                                assert(self@.shifts[q] == y);
                            } else {
                                assert(self@.shifts[q + 1] == y);
                            }
                        }
                        assert forall|x: Id| has_key(self@.shifts, x) <==> (has_key(before.shifts, x) || exists|k: int| 0 <= k < j + 1 && ids@[k] == x) by {
                            if x == ids@[j as int] {
                                assert(exists|k: int| 0 <= k < j + 1 && ids@[k] == x);
                            }
                            if exists|k: int| 0 <= k < j + 1 && ids@[k] == x {
                                let k = choose|k: int| 0 <= k < j + 1 && ids@[k] == x;
                                if k < j {
                                    assert(exists|k2: int| 0 <= k2 < j && ids@[k2] == x);
                                }
                            }
                            if exists|k: int| 0 <= k < j && ids@[k] == x {
                                let k = choose|k: int| 0 <= k < j && ids@[k] == x;
                                assert(exists|k2: int| 0 <= k2 < j + 1 && ids@[k2] == x);
                            }
                        }
                    }
                    out.push(shift);
                    proof {
                        assert(out@[j as int] == shift);
                    }
                },
                Err(e) => {
                    return Err(e);
                },
            }
            j = j + 1;
        }
        proof {
            assert forall|i: int| 0 <= i < out@.len() implies !has_key(before.shifts, #[trigger] out@[i].id) by {
                assert(out@[i].id == ids@[i]);
            }
            assert forall|i: int, k: int|
                0 <= i < out@.len() && 0 <= k < out@.len() && i != k implies out@[i].id != out@[k].id by {
                assert(out@[i].id == ids@[i]);
                assert(out@[k].id == ids@[k]);
            }
        }
        Ok(out)
    }

    /// The shifts of a schedule that start in `[from, to)`, by start.
    pub fn list_shifts(&self, schedule_id: Id, from: i64, to: i64) -> (r: Vec<Shift>)
        requires
            self@.wf(),
        ensures
            r@ == shifts_in(self@.shifts, schedule_id, from as int, to as int),
    {
        let mut out: Vec<Shift> = Vec::new();
        let n = self.shifts.len();
        let mut i: usize = 0;
        while i < n
            invariant
                n == self.shifts@.len(),
                i <= n,
                out@ == shifts_in(
                    self.shifts@.subrange(0, i as int),
                    schedule_id,
                    from as int,
                    to as int,
                ),
            decreases n - i,
        {
            let s = &self.shifts[i];
            proof {
                assert(self.shifts@.subrange(0, i as int + 1).drop_last()
                    =~= self.shifts@.subrange(0, i as int));
            }
            if s.schedule_id == schedule_id && from <= s.starts_at && s.starts_at < to {
                out.push(s.duplicate());
            }
            i = i + 1;
        }
        proof {
            assert(self.shifts@.subrange(0, n as int) =~= self.shifts@);
        }
        out
    }

    pub fn get_shift(&self, shift_id: Id) -> (r: Option<Shift>)
        requires
            self@.wf(),
        ensures
            r == lookup(self@.shifts, shift_id),
    {
        find_row(&self.shifts, shift_id)
    }

    /// Sets or clears the assignee of a shift. Fails with NotFound, changing
    /// nothing, when there is no such shift.
    pub fn assign_shift(&mut self, shift_id: Id, assigned_user_id: Option<Id>) -> (r: AppResult<
        (),
    >)
        requires
            old(self)@.wf(),
        ensures
            final(self)@.wf(),
            !has_key(old(self)@.shifts, shift_id) ==> (r matches Err(AppError::NotFound)) && final(self)@ == old(self)@,
            has_key(old(self)@.shifts, shift_id) ==> r is Ok && exists|i: int|
                0 <= i < old(self)@.shifts.len() && old(self)@.shifts[i].id == shift_id && final(self)@ == (RepoView {
                    shifts: old(self)@.shifts.update(
                        i,
                        Shift { assigned_user_id, ..old(self)@.shifts[i] },
                    ),
                    ..old(self)@
                }),
    {
        match position(&self.shifts, shift_id) {
            None => Err(AppError::NotFound),
            Some(k) => {
                let ghost old_shifts = self.shifts@;
                let mut shift = self.shifts[k].duplicate();
                shift.assigned_user_id = assigned_user_id;
                self.shifts.set(k, shift);
                proof {
                    let ss = self.shifts@;
                    assert(ss == old_shifts.update(
                        k as int,
                        Shift { assigned_user_id, ..old_shifts[k as int] },
                    ));
                    assert forall|i: int, j: int|
                        0 <= i < ss.len() && 0 <= j < ss.len() && i != j implies ss[i].key()
                        != ss[j].key() by {
                        assert(ss[i].key() == old_shifts[i].key());
                        assert(ss[j].key() == old_shifts[j].key());
                    }
                    assert forall|i: int, j: int| 0 <= i < j < ss.len() implies ss[i].rank()
                        <= ss[j].rank() by {
                        assert(ss[i].rank() == old_shifts[i].rank());
                        assert(ss[j].rank() == old_shifts[j].rank());
                    }
                }
                Ok(())
            },
        }
    }

    /// Adds a comment under identifier `id`, created at `now`. Fails with
    /// Internal when `id` is already used by a comment.
    pub fn add_shift_comment_with(&mut self, nc: NewShiftComment, id: Id, now: i64) -> (r:
        AppResult<ShiftComment>)
        requires
            old(self)@.wf(),
        ensures
            final(self)@.wf(),
            has_key(old(self)@.comments, id) ==> (r matches Err(AppError::Internal)) && final(self)@ == old(self)@,
            !has_key(old(self)@.comments, id) ==> r == Ok::<ShiftComment, AppError>(
                comment_record(nc, id, now),
            ) && old(self)@.comment_added(final(self)@, comment_record(nc, id, now)),
    {
        if position(&self.comments, id).is_some() {
            return Err(AppError::Internal);
        }
        let c = ShiftComment {
            id,
            shift_id: nc.shift_id,
            user_id: nc.user_id,
            body: nc.body,
            created_at: now,
        };
        let ghost old_comments = self.comments@;
        insert_ranked(&mut self.comments, c.duplicate());
        proof {
            let p = choose|p: int|
                0 <= p <= old_comments.len() && self.comments@ == old_comments.insert(p, c);
            lemma_insert_keys(old_comments, p, c);
        }
        Ok(c)
    }

    /// Adds a comment under a fresh random identifier. Fails with Internal,
    /// leaving the store as it was, when the identifier drawn is in use; on
    /// an empty table it succeeds.
    pub fn add_shift_comment(&mut self, nc: NewShiftComment) -> (r: AppResult<ShiftComment>)
        requires
            old(self)@.wf(),
        ensures
            final(self)@.wf(),
            old(self)@.comments.len() == 0 ==> r is Ok,
            match r {
                Ok(c) => c == comment_record(nc, c.id, c.created_at) && !has_key(
                    old(self)@.comments,
                    c.id,
                ) && old(self)@.comment_added(final(self)@, c),
                Err(e) => e is Internal && final(self)@ == old(self)@,
            },
    {
        let id = fresh_id();
        let now = now_micros();
        self.add_shift_comment_with(nc, id, now)
    }

    /// The comments on a shift, oldest first.
    pub fn list_shift_comments(&self, shift_id: Id) -> (r: Vec<ShiftComment>)
        requires
            self@.wf(),
        ensures
            r@ == comments_on(self@.comments, shift_id),
    {
        let mut out: Vec<ShiftComment> = Vec::new();
        let n = self.comments.len();
        let mut i: usize = 0;
        while i < n
            invariant
                n == self.comments@.len(),
                i <= n,
                out@ == comments_on(self.comments@.subrange(0, i as int), shift_id),
            decreases n - i,
        {
            let c = &self.comments[i];
            proof {
                assert(self.comments@.subrange(0, i as int + 1).drop_last()
                    =~= self.comments@.subrange(0, i as int));
            }
            if c.shift_id == shift_id {
                out.push(c.duplicate());
            }
            i = i + 1;
        }
        proof {
            assert(self.comments@.subrange(0, n as int) =~= self.comments@);
        }
        out
    }

    /// Adds a template under identifier `id`, created at `now`. Fails with
    /// Internal when `id` is already used by a template.
    pub fn create_template_with(&mut self, nt: NewTemplate, id: Id, now: i64) -> (r: AppResult<
        RotationTemplate,
    >)
        requires
            old(self)@.wf(),
        ensures
            final(self)@.wf(),
            has_key(old(self)@.templates, id) ==> (r matches Err(AppError::Internal)) && final(self)@ == old(self)@,
            !has_key(old(self)@.templates, id) ==> r == Ok::<RotationTemplate, AppError>(
                template_record(nt, id, now),
            ) && old(self)@.template_added(final(self)@, template_record(nt, id, now)),
    {
        if position(&self.templates, id).is_some() {
            return Err(AppError::Internal);
        }
        let t = RotationTemplate {
            id,
            schedule_id: nt.schedule_id,
            name: nt.name,
            definition: nt.definition,
            created_by: nt.created_by,
            created_at: now,
        };
        let ghost old_templates = self.templates@;
        insert_ranked(&mut self.templates, t.duplicate());
        proof {
            let p = choose|p: int|
                0 <= p <= old_templates.len() && self.templates@ == old_templates.insert(p, t);
            lemma_insert_keys(old_templates, p, t);
        }
        Ok(t)
    }

    /// Adds a template under a fresh random identifier. Fails with Internal,
    /// leaving the store as it was, when the identifier drawn is in use; on
    /// an empty table it succeeds.
    pub fn create_template(&mut self, nt: NewTemplate) -> (r: AppResult<RotationTemplate>)
        requires
            old(self)@.wf(),
        ensures
            final(self)@.wf(),
            old(self)@.templates.len() == 0 ==> r is Ok,
            match r {
                Ok(t) => t == template_record(nt, t.id, t.created_at) && !has_key(
                    old(self)@.templates,
                    t.id,
                ) && old(self)@.template_added(final(self)@, t),
                Err(e) => e is Internal && final(self)@ == old(self)@,
            },
    {
        let id = fresh_id();
        let now = now_micros();
        self.create_template_with(nt, id, now)
    }

    /// The templates of a schedule, newest first.
    pub fn list_templates(&self, schedule_id: Id) -> (r: Vec<RotationTemplate>)
        requires
            self@.wf(),
        ensures
            r@ == templates_of(self@.templates, schedule_id),
    {
        let mut out: Vec<RotationTemplate> = Vec::new();
        let n = self.templates.len();
        let mut i: usize = 0;
        while i < n
            invariant
                n == self.templates@.len(),
                i <= n,
                out@ == templates_of(self.templates@.subrange(0, i as int), schedule_id),
            decreases n - i,
        {
            let t = &self.templates[i];
            proof {
                assert(self.templates@.subrange(0, i as int + 1).drop_last()
                    =~= self.templates@.subrange(0, i as int));
            }
            if t.schedule_id == schedule_id {
                out.push(t.duplicate());
            }
            i = i + 1;
        }
        proof {
            assert(self.templates@.subrange(0, n as int) =~= self.templates@);
        }
        out
    }

    pub fn get_template(&self, template_id: Id) -> (r: Option<RotationTemplate>)
        requires
            self@.wf(),
        ensures
            r == lookup(self@.templates, template_id),
    {
        find_row(&self.templates, template_id)
    }
}

} // verus!
