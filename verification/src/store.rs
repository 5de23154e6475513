//! The role store: an owned collection of `Role` rows with the persistence
//! contract of the service.
//!
//! Rows are kept in insertion order and identifiers are unique for the whole
//! lifetime of the store. Creation draws a fresh identifier and a clock
//! reading from the outside; the deterministic cores (`create_with`,
//! `update_with`) take those values as arguments and carry the exact
//! contracts, so everything past the draw is verified for every outcome.

use vstd::prelude::*;

use crate::role::NewRole;
use crate::role::Role;
use crate::role::made_role;
use crate::role::revised_role;
use crate::valid_datestamp;
use crate::MAX_DATESTAMP;

verus! {

/// Uniform error of the store.
#[derive(Debug, Clone, Copy, PartialEq, Eq, Structural)]
pub enum StoreError {
    /// A lookup or update by identifier matched no row.
    NotFound,
    /// A create drew an identifier that the store already holds.
    DuplicateId,
    /// The clock reading fell outside the store's datestamp window.
    ClockOutOfRange,
}

/// The first row whose identifier is `id`, scanning in storage order.
pub open spec fn find_by_id(roles: Seq<Role>, id: u128) -> Option<Role>
    decreases roles.len(),
{
    if roles.len() == 0 {
        None
    } else if roles.first().id == id {
        Some(roles.first())
    } else {
        find_by_id(roles.drop_first(), id)
    }
}

/// The first row whose person identifier is `pid`, scanning in storage order.
pub open spec fn find_by_person(roles: Seq<Role>, pid: u128) -> Option<Role>
    decreases roles.len(),
{
    if roles.len() == 0 {
        None
    } else if roles.first().person_id == pid {
        Some(roles.first())
    } else {
        find_by_person(roles.drop_first(), pid)
    }
}

/// The rows whose team identifier is `id`, in storage order.
pub open spec fn with_team(roles: Seq<Role>, id: u128) -> Seq<Role>
    decreases roles.len(),
{
    if roles.len() == 0 {
        Seq::empty()
    } else if roles.first().team_id == id {
        seq![roles.first()] + with_team(roles.drop_first(), id)
    } else {
        with_team(roles.drop_first(), id)
    }
}

/// The rows whose person identifier is `pid`, in storage order.
pub open spec fn with_person(roles: Seq<Role>, pid: u128) -> Seq<Role>
    decreases roles.len(),
{
    if roles.len() == 0 {
        Seq::empty()
    } else if roles.first().person_id == pid {
        seq![roles.first()] + with_person(roles.drop_first(), pid)
    } else {
        with_person(roles.drop_first(), pid)
    }
}

/// The store's invariant: identifiers are pairwise distinct and every row's
/// timestamps lie in the store's window.
pub open spec fn store_inv(roles: Seq<Role>) -> bool {
    &&& (forall|i: int, j: int|
        #![trigger roles[i].id, roles[j].id]
        0 <= i < j < roles.len() ==> roles[i].id != roles[j].id)
    &&& (forall|i: int| 0 <= i < roles.len() ==> (#[trigger] roles[i]).wf())
}

/// Skipping rows that do not match leaves the first match unchanged.
proof fn lemma_find_by_id_skip(roles: Seq<Role>, id: u128, i: int)
    requires
        0 <= i <= roles.len(),
        forall|j: int| 0 <= j < i ==> roles[j].id != id,
    ensures
        find_by_id(roles, id) == find_by_id(roles.skip(i), id),
    decreases i,
{
    if i > 0 {
        assert(roles.drop_first() =~= roles.skip(1));
        lemma_find_by_id_skip(roles.skip(1), id, i - 1);
        assert(roles.skip(1).skip(i - 1) =~= roles.skip(i));
    } else {
        assert(roles.skip(0) =~= roles);
    }
}

/// The person-keyed twin of the skip lemma.
proof fn lemma_find_by_person_skip(roles: Seq<Role>, pid: u128, i: int)
    requires
        0 <= i <= roles.len(),
        forall|j: int| 0 <= j < i ==> roles[j].person_id != pid,
    ensures
        find_by_person(roles, pid) == find_by_person(roles.skip(i), pid),
    decreases i,
{
    if i > 0 {
        assert(roles.drop_first() =~= roles.skip(1));
        lemma_find_by_person_skip(roles.skip(1), pid, i - 1);
        assert(roles.skip(1).skip(i - 1) =~= roles.skip(i));
    } else {
        assert(roles.skip(0) =~= roles);
    }
}

/// A lookup misses exactly when no row carries the identifier.
pub proof fn lemma_find_by_id_none(roles: Seq<Role>, id: u128)
    ensures
        (find_by_id(roles, id) is None) <==> (forall|i: int|
            0 <= i < roles.len() ==> (#[trigger] roles[i]).id != id),
    decreases roles.len(),
{
    if roles.len() > 0 {
        lemma_find_by_id_none(roles.drop_first(), id);
        assert(roles.first() == roles[0]);
        if find_by_id(roles, id) is None {
            assert forall|i: int| 0 <= i < roles.len() implies (#[trigger] roles[i]).id != id by {
                if i > 0 {
                    assert(roles[i] == roles.drop_first()[i - 1]);
                    assert(roles.drop_first()[i - 1].id != id);
                }
            }
        } else {
            if roles.first().id == id {
                assert(roles[0].id == id);
            } else {
                let j = choose|j: int|
                    0 <= j < roles.drop_first().len() && (#[trigger] roles.drop_first()[j]).id
                        == id;
                assert(roles[j + 1].id == id);
            }
        }
    }
}

/// Appending a row changes a lookup only where the lookup missed and the new
/// row matches.
pub proof fn lemma_find_by_id_push(roles: Seq<Role>, x: Role, id: u128)
    ensures
        find_by_id(roles.push(x), id) == (if find_by_id(roles, id) is Some {
            find_by_id(roles, id)
        } else if x.id == id {
            Some(x)
        } else {
            None::<Role>
        }),
    decreases roles.len(),
{
    if roles.len() == 0 {
        assert(roles.push(x).first() == x);
        assert(roles.push(x).drop_first() =~= Seq::<Role>::empty());
        assert(find_by_id(roles, id) is None);
        if x.id != id {
            assert(find_by_id(roles.push(x), id) == find_by_id(Seq::<Role>::empty(), id));
            assert(find_by_id(Seq::<Role>::empty(), id) is None);
        }
    } else {
        assert(roles.push(x).first() == roles.first());
        assert(roles.push(x).drop_first() =~= roles.drop_first().push(x));
        lemma_find_by_id_push(roles.drop_first(), x, id);
        if roles.first().id == id {
            assert(find_by_id(roles, id) == Some(roles.first()));
            assert(find_by_id(roles.push(x), id) == Some(roles.first()));
        } else {
            assert(find_by_id(roles, id) == find_by_id(roles.drop_first(), id));
            assert(find_by_id(roles.push(x), id) == find_by_id(roles.drop_first().push(x), id));
        }
    }
}

/// The person-keyed twin of the push lemma.
pub proof fn lemma_find_by_person_push(roles: Seq<Role>, x: Role, pid: u128)
    ensures
        find_by_person(roles.push(x), pid) == (if find_by_person(roles, pid) is Some {
            find_by_person(roles, pid)
        } else if x.person_id == pid {
            Some(x)
        } else {
            None::<Role>
        }),
    decreases roles.len(),
{
    if roles.len() == 0 {
        assert(roles.push(x).first() == x);
        assert(roles.push(x).drop_first() =~= Seq::<Role>::empty());
        assert(find_by_person(roles, pid) is None);
        if x.person_id != pid {
            assert(find_by_person(roles.push(x), pid) == find_by_person(
                Seq::<Role>::empty(),
                pid,
            ));
            assert(find_by_person(Seq::<Role>::empty(), pid) is None);
        }
    } else {
        assert(roles.push(x).first() == roles.first());
        assert(roles.push(x).drop_first() =~= roles.drop_first().push(x));
        lemma_find_by_person_push(roles.drop_first(), x, pid);
        if roles.first().person_id == pid {
            assert(find_by_person(roles, pid) == Some(roles.first()));
            assert(find_by_person(roles.push(x), pid) == Some(roles.first()));
        } else {
            assert(find_by_person(roles, pid) == find_by_person(roles.drop_first(), pid));
            assert(find_by_person(roles.push(x), pid) == find_by_person(
                roles.drop_first().push(x),
                pid,
            ));
        }
    }
}

/// Where no row matches the team, the team scan is empty.
pub proof fn lemma_with_team_none(roles: Seq<Role>, id: u128)
    ensures
        (forall|i: int| 0 <= i < roles.len() ==> (#[trigger] roles[i]).team_id != id)
            ==> with_team(roles, id) =~= Seq::<Role>::empty(),
    decreases roles.len(),
{
    if roles.len() > 0 {
        lemma_with_team_none(roles.drop_first(), id);
        assert(forall|i: int|
            0 <= i < roles.drop_first().len() ==> #[trigger] roles.drop_first()[i] == roles[i
                + 1]);
    }
}

/// Where no row matches the person, the person scan is empty.
pub proof fn lemma_with_person_none(roles: Seq<Role>, pid: u128)
    ensures
        (forall|i: int| 0 <= i < roles.len() ==> (#[trigger] roles[i]).person_id != pid)
            ==> with_person(roles, pid) =~= Seq::<Role>::empty(),
    decreases roles.len(),
{
    if roles.len() > 0 {
        lemma_with_person_none(roles.drop_first(), pid);
        assert(forall|i: int|
            0 <= i < roles.drop_first().len() ==> #[trigger] roles.drop_first()[i] == roles[i
                + 1]);
    }
}

/// Relies on `uuid::Uuid::new_v4`, a version-4 identifier drawn from the
/// process's random source, taken as its 128-bit value; nothing is promised
/// of the value.
#[verifier::external_body]
fn fresh_id() -> u128 {
    uuid::Uuid::new_v4().as_u128()
}

/// Relies on `chrono::Utc::now` and `DateTime::timestamp`: the clock reading
/// in whole seconds from the epoch; nothing is promised of the value.
#[verifier::external_body]
fn now_datestamp() -> i64 {
    chrono::Utc::now().timestamp()
}

/// The role store. The row collection is owned and private: every mutation
/// goes through the operations below, which keep `store_inv`.
pub struct RoleStore {
    roles: Vec<Role>,
}

impl RoleStore {
    /// The stored rows, in storage order.
    pub closed spec fn rows(&self) -> Seq<Role> {
        self.roles@
    }

    pub open spec fn wf(&self) -> bool {
        store_inv(self.rows())
    }

    /// An empty store.
    pub fn new() -> (s: RoleStore)
        ensures
            s.wf(),
            s.rows() == Seq::<Role>::empty(),
    {
        let s = RoleStore { roles: Vec::new() };
        proof {
            assert(s.rows() =~= Seq::<Role>::empty());
        }
        s
    }

    /// Index of the first row with this identifier, if any.
    fn find_index_by_id(&self, id: u128) -> (r: Option<usize>)
        ensures
            match r {
                Some(i) => i < self.rows().len() && self.rows()[i as int].id == id && find_by_id(
                    self.rows(),
                    id,
                ) == Some(self.rows()[i as int]),
                None => find_by_id(self.rows(), id) is None,
            },
    {
        let n = self.roles.len();
        let mut i: usize = 0;
        while i < n
            invariant
                i <= n,
                n == self.rows().len(),
                forall|j: int| 0 <= j < i ==> self.rows()[j].id != id,
            decreases n - i,
        {
            if self.roles[i].id == id {
                proof {
                    lemma_find_by_id_skip(self.rows(), id, i as int);
                    assert(self.rows().skip(i as int).first() == self.rows()[i as int]);
                }
                return Some(i);
            }
            i = i + 1;
        }
        proof {
            lemma_find_by_id_skip(self.rows(), id, n as int);
            assert(self.rows().skip(n as int).len() == 0);
        }
        None
    }

    /// Index of the first row with this person identifier, if any.
    fn find_index_by_person(&self, pid: u128) -> (r: Option<usize>)
        ensures
            match r {
                Some(i) => i < self.rows().len() && self.rows()[i as int].person_id == pid
                    && find_by_person(self.rows(), pid) == Some(self.rows()[i as int]),
                None => find_by_person(self.rows(), pid) is None,
            },
    {
        let n = self.roles.len();
        let mut i: usize = 0;
        while i < n
            invariant
                i <= n,
                n == self.rows().len(),
                forall|j: int| 0 <= j < i ==> self.rows()[j].person_id != pid,
            decreases n - i,
        {
            if self.roles[i].person_id == pid {
                proof {
                    lemma_find_by_person_skip(self.rows(), pid, i as int);
                    assert(self.rows().skip(i as int).first() == self.rows()[i as int]);
                }
                return Some(i);
            }
            i = i + 1;
        }
        proof {
            lemma_find_by_person_skip(self.rows(), pid, n as int);
            assert(self.rows().skip(n as int).len() == 0);
        }
        None
    }

    /// Inserts one row built from the payload, the given identifier and the
    /// given clock reading. Succeeds exactly when the identifier is not yet
    /// in the store; the record comes back fully populated.
    pub fn create_with(&mut self, n: &NewRole, id: u128, now: i64) -> (r: Result<
        Role,
        StoreError,
    >)
        requires
            old(self).wf(),
            n.wf(),
            valid_datestamp(now),
        ensures
            final(self).wf(),
            r matches Ok(role) ==> role.wf(),
            match r {
                Ok(role) => find_by_id(old(self).rows(), id) is None && role == made_role(
                    *n,
                    id,
                    now,
                ) && final(self).rows() == old(self).rows().push(role),
                Err(e) => e == StoreError::DuplicateId && find_by_id(old(self).rows(), id) is Some
                    && final(self).rows() == old(self).rows(),
            },
    {
        match self.find_index_by_id(id) {
            Some(_) => Err(StoreError::DuplicateId),
            None => {
                let role = Role {
                    id,
                    person_id: n.person_id,
                    team_id: n.team_id,
                    title_en: n.title_en.clone(),
                    title_fr: n.title_fr.clone(),
                    effort: n.effort,
                    active: n.active,
                    start_datestamp: n.start_datestamp,
                    end_date: n.end_date,
                    created_at: now,
                    updated_at: now,
                };
                proof {
                    assert(role == made_role(*n, id, now));
                }
                self.roles.push(role.clone());
                proof {
                    lemma_find_by_id_none(old(self).rows(), id);
                    assert(self.rows() =~= old(self).rows().push(made_role(*n, id, now)));
                    assert forall|k: int, l: int| 0 <= k < l < self.rows().len() implies self.rows()[k].id
                        != self.rows()[l].id by {
                        if l < old(self).rows().len() {
                            assert(old(self).rows()[k].id != old(self).rows()[l].id);
                        } else {
                            assert(old(self).rows()[k].id != id);
                        }
                    }
                    assert forall|k: int| 0 <= k < self.rows().len() implies (
                    #[trigger] self.rows()[k]).wf() by {
                        if k < old(self).rows().len() {
                            assert(old(self).rows()[k].wf());
                        }
                    }
                }
                Ok(role)
            },
        }
    }

    /// Inserts one row with a freshly drawn identifier and the current clock
    /// reading. Fails only when the drawn identifier collides with a stored
    /// one or the clock reading falls outside the store's window; the drawn
    /// values are observable through the returned record.
    pub fn create(&mut self, n: &NewRole) -> (r: Result<Role, StoreError>)
        requires
            old(self).wf(),
            n.wf(),
        ensures
            final(self).wf(),
            r matches Ok(role) ==> role.wf(),
            match r {
                Ok(role) => find_by_id(old(self).rows(), role.id) is None && valid_datestamp(
                    role.created_at,
                ) && role == made_role(*n, role.id, role.created_at)
                    && final(self).rows() == old(self).rows().push(role),
                Err(e) => final(self).rows() == old(self).rows() && (e == StoreError::DuplicateId
                    || e == StoreError::ClockOutOfRange),
            },
    {
        let now = now_datestamp();
        if now < 0 || now > MAX_DATESTAMP {
            return Err(StoreError::ClockOutOfRange);
        }
        let id = fresh_id();
        self.create_with(n, id, now)
    }

    /// Returns the first stored row whose person identifier matches the
    /// payload's, ignoring every other supplied field; only when none exists
    /// is a row created, as `create` creates it.
    pub fn get_or_create(&mut self, n: &NewRole) -> (r: Result<Role, StoreError>)
        requires
            old(self).wf(),
            n.wf(),
        ensures
            final(self).wf(),
            r matches Ok(role) ==> role.person_id == n.person_id && role.wf(),
            match r {
                Ok(role) => match find_by_person(old(self).rows(), n.person_id) {
                    Some(found) => role == found && final(self).rows() == old(self).rows(),
                    None => find_by_id(old(self).rows(), role.id) is None && valid_datestamp(
                        role.created_at,
                    ) && role == made_role(*n, role.id, role.created_at) && final(self).rows()
                        == old(self).rows().push(role),
                },
                Err(e) => find_by_person(old(self).rows(), n.person_id) is None
                    && final(self).rows() == old(self).rows() && (e == StoreError::DuplicateId
                    || e == StoreError::ClockOutOfRange),
            },
    {
        match self.find_index_by_person(n.person_id) {
            Some(i) => Ok(self.roles[i].clone()),
            None => self.create(n),
        }
    }

    /// Every stored row, in storage order.
    pub fn find_all(&self) -> (r: Result<Vec<Role>, StoreError>)
        ensures
            r matches Ok(v) && v@ == self.rows(),
    {
        let n = self.roles.len();
        let mut out: Vec<Role> = Vec::new();
        let mut i: usize = 0;
        while i < n
            invariant
                i <= n,
                n == self.rows().len(),
                out@ =~= self.rows().take(i as int),
            decreases n - i,
        {
            out.push(self.roles[i].clone());
            proof {
                assert(out@ =~= self.rows().take(i as int + 1));
            }
            i = i + 1;
        }
        proof {
            assert(self.rows().take(n as int) =~= self.rows());
        }
        Ok(out)
    }

    /// The row with this identifier; `NotFound` exactly when none exists.
    pub fn get_by_id(&self, id: u128) -> (r: Result<Role, StoreError>)
        ensures
            match r {
                Ok(role) => find_by_id(self.rows(), id) == Some(role) && (self.wf()
                    ==> role.wf()),
                Err(e) => e == StoreError::NotFound && find_by_id(self.rows(), id) is None,
            },
    {
        match self.find_index_by_id(id) {
            Some(i) => Ok(self.roles[i].clone()),
            None => Err(StoreError::NotFound),
        }
    }

    /// The rows of one team, in storage order; an empty collection, never an
    /// error, when no row matches.
    pub fn get_by_team_id(&self, id: u128) -> (r: Result<Vec<Role>, StoreError>)
        ensures
            r matches Ok(v) && v@ == with_team(self.rows(), id) && ((forall|i: int|
                0 <= i < self.rows().len() ==> (#[trigger] self.rows()[i]).team_id != id)
                ==> v@.len() == 0),
    {
        let n = self.roles.len();
        let mut out: Vec<Role> = Vec::new();
        let mut i: usize = 0;
        proof {
            assert(self.rows().skip(0) =~= self.rows());
            assert(out@ + with_team(self.rows(), id) =~= with_team(self.rows(), id));
        }
        while i < n
            invariant
                i <= n,
                n == self.rows().len(),
                with_team(self.rows(), id) == out@ + with_team(self.rows().skip(i as int), id),
            decreases n - i,
        {
            proof {
                assert(self.rows().skip(i as int).first() == self.rows()[i as int]);
                assert(self.rows().skip(i as int).drop_first() =~= self.rows().skip(i as int + 1));
            }
            if self.roles[i].team_id == id {
                let ghost pre_out = out@;
                out.push(self.roles[i].clone());
                proof {
                    assert(with_team(self.rows().skip(i as int), id) == seq![
                        self.rows()[i as int],
                    ] + with_team(self.rows().skip(i as int + 1), id));
                    assert(pre_out + (seq![self.rows()[i as int]] + with_team(
                        self.rows().skip(i as int + 1),
                        id,
                    )) =~= out@ + with_team(self.rows().skip(i as int + 1), id));
                }
            }
            i = i + 1;
        }
        proof {
            assert(self.rows().skip(n as int).len() == 0);
            assert(out@ + with_team(self.rows().skip(n as int), id) =~= out@);
            lemma_with_team_none(self.rows(), id);
        }
        Ok(out)
    }

    /// The rows of one person, in storage order; an empty collection, never
    /// an error, when no row matches.
    pub fn get_by_person_id(&self, pid: u128) -> (r: Result<Vec<Role>, StoreError>)
        ensures
            r matches Ok(v) && v@ == with_person(self.rows(), pid) && ((forall|i: int|
                0 <= i < self.rows().len() ==> (#[trigger] self.rows()[i]).person_id != pid)
                ==> v@.len() == 0),
    {
        let n = self.roles.len();
        let mut out: Vec<Role> = Vec::new();
        let mut i: usize = 0;
        proof {
            assert(self.rows().skip(0) =~= self.rows());
            assert(out@ + with_person(self.rows(), pid) =~= with_person(self.rows(), pid));
        }
        while i < n
            invariant
                i <= n,
                n == self.rows().len(),
                with_person(self.rows(), pid) == out@ + with_person(
                    self.rows().skip(i as int),
                    pid,
                ),
            decreases n - i,
        {
            proof {
                assert(self.rows().skip(i as int).first() == self.rows()[i as int]);
                assert(self.rows().skip(i as int).drop_first() =~= self.rows().skip(i as int + 1));
            }
            if self.roles[i].person_id == pid {
                let ghost pre_out = out@;
                out.push(self.roles[i].clone());
                proof {
                    assert(with_person(self.rows().skip(i as int), pid) == seq![
                        self.rows()[i as int],
                    ] + with_person(self.rows().skip(i as int + 1), pid));
                    assert(pre_out + (seq![self.rows()[i as int]] + with_person(
                        self.rows().skip(i as int + 1),
                        pid,
                    )) =~= out@ + with_person(self.rows().skip(i as int + 1), pid));
                }
            }
            i = i + 1;
        }
        proof {
            assert(self.rows().skip(n as int).len() == 0);
            assert(out@ + with_person(self.rows().skip(n as int), pid) =~= out@);
            lemma_with_person_none(self.rows(), pid);
        }
        Ok(out)
    }

    /// Replaces the mutable fields of the row whose identifier is
    /// `changes.id` with the given clock reading as its update stamp.
    /// Succeeds exactly when such a row exists; every other row is untouched.
    pub fn update_with(&mut self, changes: &Role, now: i64) -> (r: Result<Role, StoreError>)
        requires
            old(self).wf(),
            changes.wf(),
            valid_datestamp(now),
        ensures
            final(self).wf(),
            (r is Ok) <==> (find_by_id(old(self).rows(), changes.id) is Some),
            r matches Ok(row) ==> row.id == changes.id && row.updated_at == now && row.wf()
                && final(self).rows().len() == old(self).rows().len(),
            match r {
                Ok(row) => exists|i: int|
                    0 <= i < old(self).rows().len() && (#[trigger] old(self).rows()[i]).id
                        == changes.id && row == revised_role(old(self).rows()[i], *changes, now)
                        && final(self).rows() == old(self).rows().update(i, row),
                Err(e) => e == StoreError::NotFound && final(self).rows() == old(self).rows(),
            },
    {
        match self.find_index_by_id(changes.id) {
            None => Err(StoreError::NotFound),
            Some(i) => {
                let row = Role {
                    id: changes.id,
                    person_id: changes.person_id,
                    team_id: changes.team_id,
                    title_en: changes.title_en.clone(),
                    title_fr: changes.title_fr.clone(),
                    effort: changes.effort,
                    active: changes.active,
                    start_datestamp: changes.start_datestamp,
                    end_date: changes.end_date,
                    created_at: self.roles[i].created_at,
                    updated_at: now,
                };
                proof {
                    assert(row == revised_role(old(self).rows()[i as int], *changes, now));
                }
                let _replaced = self.roles.remove(i);
                self.roles.insert(i, row.clone());
                proof {
                    assert(self.rows() =~= old(self).rows().update(
                        i as int,
                        revised_role(old(self).rows()[i as int], *changes, now),
                    ));
                    assert forall|k: int, l: int| 0 <= k < l < self.rows().len() implies self.rows()[k].id
                        != self.rows()[l].id by {
                        assert(self.rows()[k].id == old(self).rows()[k].id);
                        assert(self.rows()[l].id == old(self).rows()[l].id);
                        assert(old(self).rows()[k].id != old(self).rows()[l].id);
                    }
                    assert forall|k: int| 0 <= k < self.rows().len() implies (
                    #[trigger] self.rows()[k]).wf() by {
                        assert(old(self).rows()[k].wf());
                    }
                }
                Ok(row)
            },
        }
    }

    /// Replaces the mutable fields of the row whose identifier is
    /// `changes.id`, stamping the current clock reading, which is observable
    /// as the returned row's update stamp.
    pub fn update(&mut self, changes: &Role) -> (r: Result<Role, StoreError>)
        requires
            old(self).wf(),
            changes.wf(),
        ensures
            final(self).wf(),
            r matches Ok(row) ==> row.id == changes.id && row.wf() && final(self).rows().len()
                == old(self).rows().len(),
            match r {
                Ok(row) => valid_datestamp(row.updated_at) && exists|i: int|
                    0 <= i < old(self).rows().len() && (#[trigger] old(self).rows()[i]).id
                        == changes.id && row == revised_role(
                        old(self).rows()[i],
                        *changes,
                        row.updated_at,
                    ) && final(self).rows() == old(self).rows().update(i, row),
                Err(e) => final(self).rows() == old(self).rows() && (e == StoreError::NotFound
                    || e == StoreError::ClockOutOfRange) && (e == StoreError::NotFound
                    ==> find_by_id(old(self).rows(), changes.id) is None),
            },
    {
        let now = now_datestamp();
        if now < 0 || now > MAX_DATESTAMP {
            return Err(StoreError::ClockOutOfRange);
        }
        self.update_with(changes, now)
    }
}

/// Law: a record created with a fresh identifier is exactly what a later
/// lookup by that identifier yields, equal in every caller-supplied field.
pub proof fn lemma_create_then_get(roles: Seq<Role>, n: NewRole, id: u128, now: i64)
    requires
        find_by_id(roles, id) is None,
    ensures
        find_by_id(roles.push(made_role(n, id, now)), id) == Some(made_role(n, id, now)),
        made_role(n, id, now).person_id == n.person_id,
        made_role(n, id, now).team_id == n.team_id,
        made_role(n, id, now).title_en == n.title_en,
        made_role(n, id, now).title_fr == n.title_fr,
        made_role(n, id, now).effort == n.effort,
        made_role(n, id, now).active == n.active,
        made_role(n, id, now).start_datestamp == n.start_datestamp,
        made_role(n, id, now).end_date == n.end_date,
{
    lemma_find_by_id_push(roles, made_role(n, id, now), id);
}

/// Law: two get-or-create calls keyed on one person identifier agree on the
/// record, whatever the second payload's other fields hold. The first call
/// either finds a row or appends the one it made; the second call, scanning
/// the store the first call left, finds that same row, so both calls return
/// one identifier.
pub proof fn lemma_get_or_create_idempotent(
    roles: Seq<Role>,
    n1: NewRole,
    n2: NewRole,
    id: u128,
    now: i64,
)
    requires
        n2.person_id == n1.person_id,
    ensures
        ({
            let first = match find_by_person(roles, n1.person_id) {
                Some(r) => r,
                None => made_role(n1, id, now),
            };
            let after = match find_by_person(roles, n1.person_id) {
                Some(_) => roles,
                None => roles.push(made_role(n1, id, now)),
            };
            find_by_person(after, n2.person_id) == Some(first)
        }),
{
    if find_by_person(roles, n1.person_id) is None {
        lemma_find_by_person_push(roles, made_role(n1, id, now), n1.person_id);
    }
}

/// Law: revising a row touches only its mutable fields. The identifier and
/// the creation stamp survive, the update stamp becomes the clock reading
/// and so does not move backwards when the clock has not.
pub proof fn lemma_update_preserves_identity(current: Role, changes: Role, now: i64)
    requires
        current.updated_at <= now,
    ensures
        revised_role(current, changes, now).id == current.id,
        revised_role(current, changes, now).created_at == current.created_at,
        revised_role(current, changes, now).updated_at == now,
        revised_role(current, changes, now).updated_at >= current.updated_at,
        revised_role(current, changes, now).person_id == changes.person_id,
        revised_role(current, changes, now).team_id == changes.team_id,
        revised_role(current, changes, now).title_en == changes.title_en,
        revised_role(current, changes, now).title_fr == changes.title_fr,
        revised_role(current, changes, now).effort == changes.effort,
        revised_role(current, changes, now).active == changes.active,
        revised_role(current, changes, now).start_datestamp == changes.start_datestamp,
        revised_role(current, changes, now).end_date == changes.end_date,
{
}

} // verus!
