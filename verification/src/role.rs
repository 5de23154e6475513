//! The `Role` record and its construction payload.
//!
//! A `Role` links a person to a team, with bilingual display titles, an
//! effort allocation, a status flag and an active period. Identifiers are
//! held as 128-bit values (the numeric form of the service's identifiers),
//! timestamps as whole seconds from the epoch, and the effort allocation as
//! the 64-bit encoding of the presentation layer's fractional value; the
//! record itself never computes with any of them.

use vstd::prelude::*;
use vstd::string::StringExecFns;

use crate::datefmt::format_date;
use crate::datefmt::format_datestamp;
use crate::valid_datestamp;

verus! {

/// Intermediary record between a person and a team. Referenced by the person.
#[derive(Debug)]
pub struct Role {
    /// Unique identifier, immutable, generated at creation.
    pub id: u128,
    /// Foreign identifier of the person; referential meaning only.
    pub person_id: u128,
    /// Foreign identifier of the team; referential meaning only.
    pub team_id: u128,
    /// English display title.
    pub title_en: String,
    /// French display title.
    pub title_fr: String,
    /// Fractional effort allocation, held as the bit pattern of the
    /// presentation layer's 64-bit value; carried, never computed with.
    pub effort: u64,
    /// Status flag.
    pub active: bool,
    /// Start of the role, in whole seconds from the epoch; required.
    pub start_datestamp: i64,
    /// End of the role; absence means the role is ongoing.
    pub end_date: Option<i64>,
    /// Set by the store on insert.
    pub created_at: i64,
    /// Set by the store on insert and on every update.
    pub updated_at: i64,
}

/// Construction payload: a `Role` without the identifier and the bookkeeping
/// stamps, which the store supplies.
#[derive(Debug)]
pub struct NewRole {
    pub person_id: u128,
    pub team_id: u128,
    pub title_en: String,
    pub title_fr: String,
    pub effort: u64,
    pub active: bool,
    pub start_datestamp: i64,
    pub end_date: Option<i64>,
}

impl Role {
    /// Every timestamp of the record lies in the store's window.
    pub open spec fn wf(&self) -> bool {
        &&& valid_datestamp(self.start_datestamp)
        &&& (self.end_date matches Some(e) ==> valid_datestamp(e))
        &&& valid_datestamp(self.created_at)
        &&& valid_datestamp(self.updated_at)
    }

    /// Identifier of the person this role links; the presentation layer
    /// resolves the person record from it.
    pub fn person(&self) -> (r: u128)
        ensures
            r == self.person_id,
    {
        self.person_id
    }

    /// Identifier of the team this role links; the presentation layer
    /// resolves the team record from it.
    pub fn team(&self) -> (r: u128)
        ensures
            r == self.team_id,
    {
        self.team_id
    }

    pub fn english_title(&self) -> (r: String)
        ensures
            r@ == self.title_en@,
    {
        self.title_en.clone()
    }

    pub fn french_title(&self) -> (r: String)
        ensures
            r@ == self.title_fr@,
    {
        self.title_fr.clone()
    }

    /// The effort allocation as stored: the 64-bit encoding of the
    /// presentation layer's fractional value.
    pub fn effort(&self) -> (r: u64)
        ensures
            r == self.effort,
    {
        self.effort
    }

    /// The status flag as the presentation layer's two-valued string.
    pub fn active(&self) -> (r: String)
        ensures
            self.active ==> r@ == "Active"@,
            !self.active ==> r@ == "INACTIVE"@,
    {
        if self.active {
            String::from_str("Active")
        } else {
            String::from_str("INACTIVE")
        }
    }

    /// The start of the role, rendered under the store's calendar pattern.
    pub fn start_date(&self) -> (r: String)
        requires
            self.wf(),
        ensures
            r@ == format_date(self.start_datestamp as int),
    {
        format_datestamp(self.start_datestamp)
    }

    /// The end of the role rendered under the store's calendar pattern, or
    /// the sentinel when the role is ongoing.
    pub fn end_date(&self) -> (r: String)
        requires
            self.wf(),
        ensures
            match self.end_date {
                Some(e) => r@ == format_date(e as int),
                None => r@ == "Still Active"@,
            },
    {
        match self.end_date {
            Some(e) => format_datestamp(e),
            None => String::from_str("Still Active"),
        }
    }

    /// The creation stamp, rendered under the store's calendar pattern.
    pub fn created_at(&self) -> (r: String)
        requires
            self.wf(),
        ensures
            r@ == format_date(self.created_at as int),
    {
        format_datestamp(self.created_at)
    }

    /// The last-update stamp, rendered under the store's calendar pattern.
    pub fn updated_at(&self) -> (r: String)
        requires
            self.wf(),
        ensures
            r@ == format_date(self.updated_at as int),
    {
        format_datestamp(self.updated_at)
    }
}

impl Clone for Role {
    fn clone(&self) -> (r: Self)
        ensures
            r == *self,
    {
        Role {
            id: self.id,
            person_id: self.person_id,
            team_id: self.team_id,
            title_en: self.title_en.clone(),
            title_fr: self.title_fr.clone(),
            effort: self.effort,
            active: self.active,
            start_datestamp: self.start_datestamp,
            end_date: self.end_date,
            created_at: self.created_at,
            updated_at: self.updated_at,
        }
    }
}

impl NewRole {
    /// Every timestamp of the payload lies in the store's window.
    pub open spec fn wf(&self) -> bool {
        &&& valid_datestamp(self.start_datestamp)
        &&& (self.end_date matches Some(e) ==> valid_datestamp(e))
    }

    pub fn new(
        person_id: u128,
        team_id: u128,
        title_en: String,
        title_fr: String,
        effort: u64,
        active: bool,
        start_datestamp: i64,
        end_date: Option<i64>,
    ) -> (r: NewRole)
        ensures
            r.person_id == person_id,
            r.team_id == team_id,
            r.title_en == title_en,
            r.title_fr == title_fr,
            r.effort == effort,
            r.active == active,
            r.start_datestamp == start_datestamp,
            r.end_date == end_date,
    {
        NewRole {
            person_id,
            team_id,
            title_en,
            title_fr,
            effort,
            active,
            start_datestamp,
            end_date,
        }
    }
}

impl Clone for NewRole {
    fn clone(&self) -> (r: Self)
        ensures
            r == *self,
    {
        NewRole {
            person_id: self.person_id,
            team_id: self.team_id,
            title_en: self.title_en.clone(),
            title_fr: self.title_fr.clone(),
            effort: self.effort,
            active: self.active,
            start_datestamp: self.start_datestamp,
            end_date: self.end_date,
        }
    }
}

/// The record that a create with payload `n`, generated identifier `id` and
/// clock reading `now` stores: the caller-supplied fields are taken over
/// unchanged, and both bookkeeping stamps are set to `now`.
pub open spec fn made_role(n: NewRole, id: u128, now: i64) -> Role {
    Role {
        id,
        person_id: n.person_id,
        team_id: n.team_id,
        title_en: n.title_en,
        title_fr: n.title_fr,
        effort: n.effort,
        active: n.active,
        start_datestamp: n.start_datestamp,
        end_date: n.end_date,
        created_at: now,
        updated_at: now,
    }
}

/// The row that an update of `current` with `changes` at clock reading `now`
/// leaves behind: every mutable field is replaced with the value from
/// `changes`, the identifier and the creation stamp survive, and the update
/// stamp becomes `now`.
pub open spec fn revised_role(current: Role, changes: Role, now: i64) -> Role {
    Role {
        id: current.id,
        person_id: changes.person_id,
        team_id: changes.team_id,
        title_en: changes.title_en,
        title_fr: changes.title_fr,
        effort: changes.effort,
        active: changes.active,
        start_datestamp: changes.start_datestamp,
        end_date: changes.end_date,
        created_at: current.created_at,
        updated_at: now,
    }
}

} // verus!
