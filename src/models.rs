//! The entity model: roles, periods and the records the store keeps.
use vstd::prelude::*;
use crate::text::same_text;

verus! {

/// An opaque 128-bit identifier.
pub type Id = u128;

/// A schedule-scoped role. Roles compare by equality only.
#[derive(Clone, Copy, Debug, PartialEq, Eq, Structural)]
pub enum ScheduleRole {
    Admin,
    User,
}

/// The lowercase tag under which a role is stored.
pub open spec fn role_tag(r: ScheduleRole) -> Seq<char> {
    match r {
        ScheduleRole::Admin => "admin"@,
        ScheduleRole::User => "user"@,
    }
}

impl ScheduleRole {
    pub fn as_str(self) -> (r: &'static str)
        ensures
            r@ == role_tag(self),
    {
        match self {
            ScheduleRole::Admin => "admin",
            ScheduleRole::User => "user",
        }
    }

    /// The role whose tag is `s`, if any.
    pub fn from_tag(s: &str) -> (r: Option<ScheduleRole>)
        ensures
            r == (if s@ == "admin"@ {
                Some(ScheduleRole::Admin)
            } else if s@ == "user"@ {
                Some(ScheduleRole::User)
            } else {
                None
            }),
    {
        if same_text(s, "admin") {
            Some(ScheduleRole::Admin)
        } else if same_text(s, "user") {
            Some(ScheduleRole::User)
        } else {
            None
        }
    }
}

/// The coarse label of a shift. It is not checked against the shift's times.
#[derive(Clone, Copy, Debug, PartialEq, Eq, Structural)]
pub enum Period {
    Morning,
    Afternoon,
    Night,
    Sleep,
}

/// The lowercase tag under which a period is stored.
pub open spec fn period_tag(p: Period) -> Seq<char> {
    match p {
        Period::Morning => "morning"@,
        Period::Afternoon => "afternoon"@,
        Period::Night => "night"@,
        Period::Sleep => "sleep"@,
    }
}

impl Period {
    pub fn as_str(self) -> (r: &'static str)
        ensures
            r@ == period_tag(self),
    {
        match self {
            Period::Morning => "morning",
            Period::Afternoon => "afternoon",
            Period::Night => "night",
            Period::Sleep => "sleep",
        }
    }

    /// The period whose tag is `s`, if any.
    pub fn from_tag(s: &str) -> (r: Option<Period>)
        ensures
            r == (if s@ == "morning"@ {
                Some(Period::Morning)
            } else if s@ == "afternoon"@ {
                Some(Period::Afternoon)
            } else if s@ == "night"@ {
                Some(Period::Night)
            } else if s@ == "sleep"@ {
                Some(Period::Sleep)
            } else {
                None
            }),
    {
        if same_text(s, "morning") {
            Some(Period::Morning)
        } else if same_text(s, "afternoon") {
            Some(Period::Afternoon)
        } else if same_text(s, "night") {
            Some(Period::Night)
        } else if same_text(s, "sleep") {
            Some(Period::Sleep)
        } else {
            None
        }
    }
}

/// A registered user. Timestamps throughout are microseconds since
/// 1970-01-01T00:00:00 UTC.
#[derive(Clone, Debug)]
pub struct User {
    pub id: Id,
    pub email: String,
    pub is_superadmin: bool,
    pub created_at: i64,
}

impl User {
    pub fn duplicate(&self) -> (r: User)
        ensures
            r == *self,
    {
        User {
            id: self.id,
            email: self.email.clone(),
            is_superadmin: self.is_superadmin,
            created_at: self.created_at,
        }
    }
}

/// A named rotation; `created_by` is its owner.
#[derive(Clone, Debug)]
pub struct Schedule {
    pub id: Id,
    pub name: String,
    pub subject_type: String,
    pub subject_name: String,
    pub created_by: Id,
    pub created_at: i64,
}

impl Schedule {
    pub fn duplicate(&self) -> (r: Schedule)
        ensures
            r == *self,
    {
        Schedule {
            id: self.id,
            name: self.name.clone(),
            subject_type: self.subject_type.clone(),
            subject_name: self.subject_name.clone(),
            created_by: self.created_by,
            created_at: self.created_at,
        }
    }
}

/// A schedule together with the role a given user holds on it.
#[derive(Clone, Debug)]
pub struct ScheduleWithRole {
    pub schedule: Schedule,
    pub role: ScheduleRole,
}

/// A time-bounded shift of a schedule. `starts_at` and `ends_at` are
/// microseconds since the Unix epoch, read as UTC.
#[derive(Clone, Debug)]
pub struct Shift {
    pub id: Id,
    pub schedule_id: Id,
    pub starts_at: i64,
    pub ends_at: i64,
    pub period: Period,
    pub assigned_user_id: Option<Id>,
    pub created_by: Id,
    pub created_at: i64,
}

impl Shift {
    pub fn duplicate(&self) -> (r: Shift)
        ensures
            r == *self,
    {
        Shift {
            id: self.id,
            schedule_id: self.schedule_id,
            starts_at: self.starts_at,
            ends_at: self.ends_at,
            period: self.period,
            assigned_user_id: self.assigned_user_id,
            created_by: self.created_by,
            created_at: self.created_at,
        }
    }
}

/// A comment by `user_id` on a shift.
#[derive(Clone, Debug)]
pub struct ShiftComment {
    pub id: Id,
    pub shift_id: Id,
    pub user_id: Id,
    pub body: String,
    pub created_at: i64,
}

impl ShiftComment {
    pub fn duplicate(&self) -> (r: ShiftComment)
        ensures
            r == *self,
    {
        ShiftComment {
            id: self.id,
            shift_id: self.shift_id,
            user_id: self.user_id,
            body: self.body.clone(),
            created_at: self.created_at,
        }
    }
}

/// A reusable weekly pattern. `definition` is the template's structured
/// definition in its JSON text form; the store never reads it.
#[derive(Clone, Debug)]
pub struct RotationTemplate {
    pub id: Id,
    pub schedule_id: Id,
    pub name: String,
    pub definition: String,
    pub created_by: Id,
    pub created_at: i64,
}

impl RotationTemplate {
    pub fn duplicate(&self) -> (r: RotationTemplate)
        ensures
            r == *self,
    {
        RotationTemplate {
            id: self.id,
            schedule_id: self.schedule_id,
            name: self.name.clone(),
            definition: self.definition.clone(),
            created_by: self.created_by,
            created_at: self.created_at,
        }
    }
}

} // verus!
