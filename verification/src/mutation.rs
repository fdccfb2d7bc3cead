//! The write side of the data-access surface: roster administration (users,
//! administrators, groups, memberships) and the administrative corrections on
//! sessions and attendance marks.

use vstd::prelude::*;

use crate::model::{Admin, Attendance, Group, Membership, Session, User};
use crate::seq_facts::{
    lemma_filter_preserves_each, lemma_filter_preserves_pairwise, lemma_filter_step,
    lemma_remove_preserves_each, lemma_remove_preserves_pairwise,
};
use crate::store::{
    same_admins, same_attendance, same_groups, same_log, same_memberships, same_sessions,
    same_users, Store,
};

verus! {

/// Why a mutation was rejected.
#[derive(Clone, Copy, PartialEq, Eq, Structural, Debug)]
pub enum StoreError {
    /// No row carries the given identifier.
    NotFound,
    /// The card identifier is already taken within the roster.
    DuplicateCard,
    /// The group already has an open session.
    OpenSessionExists,
    /// The session's end time is already set.
    SessionAlreadyClosed,
    /// The group has no open session to mark attendance against.
    NoSessionForGroup,
    /// The (user, session) pair already has a mark.
    AlreadyMarked,
}

/// The predicate keeping the marks that do not reference `session_id`.
pub open spec fn mark_not_session_pred(session_id: i64) -> spec_fn(Attendance) -> bool {
    |a: Attendance| a.session_id != session_id
}

/// The predicate keeping the memberships other than (`user_id`, `group_id`).
pub open spec fn membership_not_pair_pred(user_id: i64, group_id: i64) -> spec_fn(
    Membership,
) -> bool {
    |m: Membership| !(m.user_id == user_id && m.group_id == group_id)
}

/// The predicate keeping the memberships outside `group_id`.
pub open spec fn membership_not_group_pred(group_id: i64) -> spec_fn(Membership) -> bool {
    |m: Membership| m.group_id != group_id
}

/// The predicate keeping the sessions outside `group_id`.
pub open spec fn session_not_group_pred(group_id: i64) -> spec_fn(Session) -> bool {
    |x: Session| x.group_id != group_id
}

/// Finds the index of the user with identifier `id`.
fn find_user_index(store: &Store, id: i64) -> (r: Option<usize>)
    requires
        store.wf(),
    ensures
        match r {
            Some(k) => k < store.users@.len() && store.users@[k as int].id == id && k as int
                == store.user_index_of(id) && store.has_user_id(id),
            None => !store.has_user_id(id),
        },
{
    let n = store.users.len();
    let mut i: usize = 0;
    while i < n
        invariant
            n == store.users@.len(),
            i <= n,
            store.wf(),
            forall|j: int| 0 <= j < i ==> (#[trigger] store.users@[j]).id != id,
        decreases n - i,
    {
        if store.users[i].id == id {
            assert(store.has_user_id(id));
            assert(store.user_index_of(id) == i) by {
                let k = store.user_index_of(id);
                assert(0 <= k < store.users@.len() && store.users@[k].id == id);
            }
            return Some(i);
        }
        i += 1;
    }
    None
}

/// Finds the index of the group with identifier `id`.
fn find_group_index(store: &Store, id: i64) -> (r: Option<usize>)
    requires
        store.wf(),
    ensures
        match r {
            Some(k) => k < store.groups@.len() && store.groups@[k as int].id == id && k as int
                == store.group_index_of(id) && store.has_group_id(id),
            None => !store.has_group_id(id),
        },
{
    let n = store.groups.len();
    let mut i: usize = 0;
    while i < n
        invariant
            n == store.groups@.len(),
            i <= n,
            store.wf(),
            forall|j: int| 0 <= j < i ==> (#[trigger] store.groups@[j]).id != id,
        decreases n - i,
    {
        if store.groups[i].id == id {
            assert(store.has_group_id(id));
            assert(store.group_index_of(id) == i) by {
                let k = store.group_index_of(id);
                assert(0 <= k < store.groups@.len() && store.groups@[k].id == id);
            }
            return Some(i);
        }
        i += 1;
    }
    None
}

/// Finds the index of the session with identifier `id`.
fn find_session_index(store: &Store, id: i64) -> (r: Option<usize>)
    requires
        store.wf(),
    ensures
        match r {
            Some(k) => k < store.sessions@.len() && store.sessions@[k as int].id == id && k as int
                == store.session_index_of(id) && store.has_session_id(id),
            None => !store.has_session_id(id),
        },
{
    let n = store.sessions.len();
    let mut i: usize = 0;
    while i < n
        invariant
            n == store.sessions@.len(),
            i <= n,
            store.wf(),
            forall|j: int| 0 <= j < i ==> (#[trigger] store.sessions@[j]).id != id,
        decreases n - i,
    {
        if store.sessions[i].id == id {
            assert(store.has_session_id(id));
            assert(store.session_index_of(id) == i) by {
                let k = store.session_index_of(id);
                assert(0 <= k < store.sessions@.len() && store.sessions@[k].id == id);
            }
            return Some(i);
        }
        i += 1;
    }
    None
}

/// The write side of the data-access layer.
pub struct MutationRoot;

impl MutationRoot {
    /// Adds a user; the card identifier must be free within the user roster.
    pub fn create_user(&self, store: &mut Store, name: String, rfid: String) -> (r: Result<
        User,
        StoreError,
    >)
        requires
            old(store).wf(),
            old(store).next_user_id < i64::MAX,
        ensures
            final(store).wf(),
            match r {
                Ok(u) => !old(store).is_user_card(rfid@) && u.id == old(store).next_user_id
                    && u.name@ == name@ && u.rfid@ == rfid@ && final(store).users@ == old(store).users@.push(u) && final(store).next_user_id == old(store).next_user_id + 1
                    && same_admins(*old(store), *final(store)) && same_groups(
                    *old(store),
                    *final(store),
                ) && same_memberships(*old(store), *final(store)) && same_sessions(
                    *old(store),
                    *final(store),
                ) && same_attendance(*old(store), *final(store)) && same_log(
                    *old(store),
                    *final(store),
                ),
                Err(e) => e == StoreError::DuplicateCard && old(store).is_user_card(rfid@)
                    && *final(store) == *old(store),
            },
    {
        if store.find_user_by_card(&rfid).is_some() {
            return Err(StoreError::DuplicateCard);
        }
        let u = User { id: store.next_user_id, name, rfid };
        let out = u.clone();
        store.users.push(u);
        store.next_user_id = store.next_user_id + 1;
        proof {
            let old_len = old(store).users@.len() as int;
            assert forall|i: int, j: int|
                #![trigger store.users@[i], store.users@[j]]
                0 <= i < j < store.users@.len() implies store.users@[i].id != store.users@[j].id
                && store.users@[i].rfid@ != store.users@[j].rfid@ by {
                if j == old_len {
                    assert(!old(store).is_user_card(store.users@[j].rfid@));
                }
            }
        }
        Ok(out)
    }

    /// Adds an administrator; the card identifier must be free within the
    /// administrator roster.
    pub fn create_admin(
        &self,
        store: &mut Store,
        username: String,
        rfid: String,
        credential: String,
    ) -> (r: Result<Admin, StoreError>)
        requires
            old(store).wf(),
            old(store).next_admin_id < i64::MAX,
        ensures
            final(store).wf(),
            match r {
                Ok(a) => !old(store).is_admin_card(rfid@) && a.id == old(store).next_admin_id
                    && a.username@ == username@ && a.rfid@ == rfid@ && final(store).admins@ == old(store).admins@.push(a) && final(store).next_admin_id == old(store).next_admin_id + 1
                    && same_users(*old(store), *final(store)) && same_groups(
                    *old(store),
                    *final(store),
                ) && same_memberships(*old(store), *final(store)) && same_sessions(
                    *old(store),
                    *final(store),
                ) && same_attendance(*old(store), *final(store)) && same_log(
                    *old(store),
                    *final(store),
                ),
                Err(e) => e == StoreError::DuplicateCard && old(store).is_admin_card(rfid@)
                    && *final(store) == *old(store),
            },
    {
        if store.find_admin_by_card(&rfid).is_some() {
            return Err(StoreError::DuplicateCard);
        }
        let a = Admin { id: store.next_admin_id, username, rfid, credential };
        let out = a.clone();
        store.admins.push(a);
        store.next_admin_id = store.next_admin_id + 1;
        proof {
            let old_len = old(store).admins@.len() as int;
            assert forall|i: int, j: int|
                #![trigger store.admins@[i], store.admins@[j]]
                0 <= i < j < store.admins@.len() implies store.admins@[i].id != store.admins@[j].id
                && store.admins@[i].rfid@ != store.admins@[j].rfid@ by {
                if j == old_len {
                    assert(!old(store).is_admin_card(store.admins@[j].rfid@));
                }
            }
        }
        Ok(out)
    }

    /// Rotates a user's card identifier; the new identifier must be free
    /// among the other users.
    pub fn update_user_rfid(&self, store: &mut Store, id: i64, rfid: String) -> (r: Result<
        User,
        StoreError,
    >)
        requires
            old(store).wf(),
        ensures
            final(store).wf(),
            match r {
                Ok(u) => old(store).has_user_id(id) && (forall|j: int|
                    0 <= j < old(store).users@.len() && (#[trigger] old(store).users@[j]).id != id
                        ==> old(store).users@[j].rfid@ != rfid@) && u.id == id && u.rfid@ == rfid@
                    && u.name@ == old(store).users@[old(store).user_index_of(id)].name@ && final(store).users@ == old(store).users@.update(old(store).user_index_of(id), u) && final(store).next_user_id == old(store).next_user_id && same_admins(*old(store), *final(store))
                    && same_groups(*old(store), *final(store)) && same_memberships(
                    *old(store),
                    *final(store),
                ) && same_sessions(*old(store), *final(store)) && same_attendance(
                    *old(store),
                    *final(store),
                ) && same_log(*old(store), *final(store)),
                Err(StoreError::NotFound) => !old(store).has_user_id(id) && *final(store) == *old(store),
                Err(StoreError::DuplicateCard) => (exists|j: int|
                    0 <= j < old(store).users@.len() && (#[trigger] old(store).users@[j]).id != id
                        && old(store).users@[j].rfid@ == rfid@) && *final(store) == *old(store),
                Err(_) => false,
            },
    {
        let k = match find_user_index(store, id) {
            Some(k) => k,
            None => {
                return Err(StoreError::NotFound);
            },
        };
        let n = store.users.len();
        let mut j: usize = 0;
        while j < n
            invariant
                n == store.users@.len(),
                k < n,
                j <= n,
                *store == *old(store),
                store.wf(),
                store.users@[k as int].id == id,
                k as int == store.user_index_of(id),
                store.has_user_id(id),
                forall|t: int|
                    0 <= t < j && t != k as int ==> (#[trigger] store.users@[t]).rfid@ != rfid@,
            decreases n - j,
        {
            if j != k && store.users[j].rfid == rfid {
                proof {
                    assert(store.users@[k as int].id == id);
                    assert((#[trigger] store.users@[j as int]).id != id) by {
                        if store.users@[j as int].id == id {
                            assert(store.users@[j as int].id == store.users@[k as int].id);
                        }
                    }
                }
                return Err(StoreError::DuplicateCard);
            }
            j += 1;
        }
        let name = store.users[k].name.clone();
        let u = User { id, name, rfid };
        let out = u.clone();
        store.users[k] = u;
        proof {
            assert forall|i: int|
                0 <= i < store.users@.len() implies (#[trigger] store.users@[i]).id == old(store).users@[i].id by {}
            assert forall|i: int, t: int|
                #![trigger store.users@[i], store.users@[t]]
                0 <= i < t < store.users@.len() implies store.users@[i].id != store.users@[t].id
                && store.users@[i].rfid@ != store.users@[t].rfid@ by {
                if i == k as int {
                    assert(store.users@[t] == old(store).users@[t]);
                } else if t == k as int {
                    assert(store.users@[i] == old(store).users@[i]);
                } else {
                    assert(store.users@[i] == old(store).users@[i]);
                    assert(store.users@[t] == old(store).users@[t]);
                }
            }
        }
        Ok(out)
    }

    /// Removes a user; history referencing the user is left in place.
    pub fn delete_user(&self, store: &mut Store, id: i64) -> (r: Result<User, StoreError>)
        requires
            old(store).wf(),
        ensures
            final(store).wf(),
            match r {
                Ok(u) => old(store).has_user_id(id) && u == old(store).users@[old(store).user_index_of(id)] && final(store).users@ == old(store).users@.remove(
                    old(store).user_index_of(id),
                ) && final(store).next_user_id == old(store).next_user_id && same_admins(
                    *old(store),
                    *final(store),
                ) && same_groups(*old(store), *final(store)) && same_memberships(
                    *old(store),
                    *final(store),
                ) && same_sessions(*old(store), *final(store)) && same_attendance(
                    *old(store),
                    *final(store),
                ) && same_log(*old(store), *final(store)),
                Err(e) => e == StoreError::NotFound && !old(store).has_user_id(id) && *final(store)
                    == *old(store),
            },
    {
        let k = match find_user_index(store, id) {
            Some(k) => k,
            None => {
                return Err(StoreError::NotFound);
            },
        };
        let u = store.users[k].clone();
        store.users.remove(k);
        proof {
            let olds = old(store).users@;
            let r_pair = |a: User, b: User| a.id != b.id && a.rfid@ != b.rfid@;
            assert forall|i: int, t: int|
                0 <= i < olds.len() && 0 <= t < olds.len() && i != t implies r_pair(
                #[trigger] olds[i],
                #[trigger] olds[t],
            ) by {
                if i < t {
                } else {
                    assert(olds[t].id != olds[i].id && olds[t].rfid@ != olds[i].rfid@);
                }
            }
            lemma_remove_preserves_pairwise(olds, k as int, r_pair);
            let p_bound = |a: User| 0 <= a.id < old(store).next_user_id;
            lemma_remove_preserves_each(olds, k as int, p_bound);
            assert forall|i: int, t: int|
                #![trigger store.users@[i], store.users@[t]]
                0 <= i < t < store.users@.len() implies store.users@[i].id != store.users@[t].id
                && store.users@[i].rfid@ != store.users@[t].rfid@ by {
                assert(r_pair(olds.remove(k as int)[i], olds.remove(k as int)[t]));
            }
            assert forall|i: int|
                0 <= i < store.users@.len() implies 0 <= (#[trigger] store.users@[i]).id < store.next_user_id by {
                assert(p_bound(olds.remove(k as int)[i]));
            }
        }
        Ok(u)
    }

    /// Opens a session for the group by administrative action; rejected while
    /// the group already has an open session.
    pub fn create_session(&self, store: &mut Store, group_id: i64, created_by: i64, now: i64) -> (r:
        Result<Session, StoreError>)
        requires
            old(store).wf(),
            old(store).next_session_id < i64::MAX,
        ensures
            final(store).wf(),
            match r {
                Ok(s) => !old(store).has_open_session(group_id) && s == (Session {
                    id: old(store).next_session_id,
                    group_id,
                    created_by,
                    start_time: now,
                    end_time: None::<i64>,
                }) && final(store).sessions@ == old(store).sessions@.push(s) && final(store).next_session_id == old(store).next_session_id + 1 && same_admins(
                    *old(store),
                    *final(store),
                ) && same_users(*old(store), *final(store)) && same_groups(
                    *old(store),
                    *final(store),
                ) && same_memberships(*old(store), *final(store)) && same_attendance(
                    *old(store),
                    *final(store),
                ) && same_log(*old(store), *final(store)),
                Err(e) => e == StoreError::OpenSessionExists && old(store).has_open_session(
                    group_id,
                ) && *final(store) == *old(store),
            },
    {
        if store.find_open_session(group_id).is_some() {
            return Err(StoreError::OpenSessionExists);
        }
        let s = store.open_session(group_id, created_by, now);
        Ok(s)
    }

    /// Sets the end time of an open session by administrative action.
    pub fn end_session(&self, store: &mut Store, id: i64, now: i64) -> (r: Result<
        Session,
        StoreError,
    >)
        requires
            old(store).wf(),
        ensures
            final(store).wf(),
            match r {
                Ok(s) => old(store).has_open_session_id(id) && s == (Session {
                    end_time: Some(now),
                    ..old(store).sessions@[old(store).session_index_of(id)]
                }) && final(store).sessions@ == old(store).sessions@.update(
                    old(store).session_index_of(id),
                    s,
                ) && final(store).next_session_id == old(store).next_session_id && same_admins(
                    *old(store),
                    *final(store),
                ) && same_users(*old(store), *final(store)) && same_groups(
                    *old(store),
                    *final(store),
                ) && same_memberships(*old(store), *final(store)) && same_attendance(
                    *old(store),
                    *final(store),
                ) && same_log(*old(store), *final(store)),
                Err(StoreError::NotFound) => !old(store).has_session_id(id) && *final(store)
                    == *old(store),
                Err(StoreError::SessionAlreadyClosed) => old(store).has_session_id(id) && old(store).sessions@[old(store).session_index_of(id)].end_time is Some && *final(store)
                    == *old(store),
                Err(_) => false,
            },
    {
        let k = match find_session_index(store, id) {
            Some(k) => k,
            None => {
                return Err(StoreError::NotFound);
            },
        };
        if store.sessions[k].end_time.is_some() {
            return Err(StoreError::SessionAlreadyClosed);
        }
        proof {
            assert(store.has_open_session_id(id)) by {
                assert(store.sessions@[k as int].id == id && store.sessions@[k as int].end_time
                    is None);
            }
        }
        let s = store.close_session(id, now);
        Ok(s)
    }

    /// Removes a session and, first, every attendance mark that references
    /// it.
    pub fn delete_session(&self, store: &mut Store, id: i64) -> (r: Result<Session, StoreError>)
        requires
            old(store).wf(),
        ensures
            final(store).wf(),
            match r {
                Ok(s) => old(store).has_session_id(id) && s == old(store).sessions@[old(store).session_index_of(id)] && final(store).sessions@ == old(store).sessions@.remove(
                    old(store).session_index_of(id),
                ) && final(store).attendance@ == old(store).attendance@.filter(
                    mark_not_session_pred(id),
                ) && final(store).next_session_id == old(store).next_session_id && final(store).next_attendance_id == old(store).next_attendance_id && same_admins(
                    *old(store),
                    *final(store),
                ) && same_users(*old(store), *final(store)) && same_groups(
                    *old(store),
                    *final(store),
                ) && same_memberships(*old(store), *final(store)) && same_log(
                    *old(store),
                    *final(store),
                ),
                Err(e) => e == StoreError::NotFound && !old(store).has_session_id(id) && *final(store) == *old(store),
            },
    {
        let k = match find_session_index(store, id) {
            Some(k) => k,
            None => {
                return Err(StoreError::NotFound);
            },
        };
        let s = store.sessions[k];
        let ghost pred = mark_not_session_pred(id);
        let mut kept: Vec<Attendance> = Vec::new();
        let n = store.attendance.len();
        let mut i: usize = 0;
        while i < n
            invariant
                n == store.attendance@.len(),
                i <= n,
                *store == *old(store),
                kept@ == store.attendance@.subrange(0, i as int).filter(pred),
                pred == mark_not_session_pred(id),
            decreases n - i,
        {
            let a = store.attendance[i];
            if a.session_id != id {
                kept.push(a);
            }
            proof {
                lemma_filter_step(store.attendance@, pred, i as int);
            }
            i += 1;
        }
        proof {
            assert(store.attendance@.subrange(0, n as int) =~= store.attendance@);
        }
        store.attendance = kept;
        store.sessions.remove(k);
        proof {
            let olda = old(store).attendance@;
            let r_marks = |a: Attendance, b: Attendance|
                a.id != b.id && !(a.user_id == b.user_id && a.session_id == b.session_id);
            assert forall|i2: int, t: int|
                0 <= i2 < olda.len() && 0 <= t < olda.len() && i2 != t implies r_marks(
                #[trigger] olda[i2],
                #[trigger] olda[t],
            ) by {
                if i2 < t {
                } else {
                    assert(olda[t].id != olda[i2].id);
                }
            }
            lemma_filter_preserves_pairwise(olda, pred, r_marks);
            let p_mark_bound = |a: Attendance| 0 <= a.id < old(store).next_attendance_id;
            lemma_filter_preserves_each(olda, pred, p_mark_bound);
            assert forall|i2: int, t: int|
                #![trigger store.attendance@[i2], store.attendance@[t]]
                0 <= i2 < store.attendance@.len() && 0 <= t < store.attendance@.len() && i2
                    != t implies r_marks(store.attendance@[i2], store.attendance@[t]) by {
                assert(r_marks(olda.filter(pred)[i2], olda.filter(pred)[t]));
            }
            assert forall|i2: int|
                0 <= i2 < store.attendance@.len() implies 0 <= (
            #[trigger] store.attendance@[i2]).id < store.next_attendance_id by {
                assert(p_mark_bound(olda.filter(pred)[i2]));
            }
            let olds = old(store).sessions@;
            let r_sess = |a: Session, b: Session|
                a.id != b.id && !(a.end_time is None && b.end_time is None && a.group_id
                    == b.group_id);
            assert forall|i2: int, t: int|
                0 <= i2 < olds.len() && 0 <= t < olds.len() && i2 != t implies r_sess(
                #[trigger] olds[i2],
                #[trigger] olds[t],
            ) by {
                if i2 < t {
                } else {
                    assert(olds[t].id != olds[i2].id);
                }
            }
            lemma_remove_preserves_pairwise(olds, k as int, r_sess);
            let p_sess_bound = |x: Session| 0 <= x.id < old(store).next_session_id;
            lemma_remove_preserves_each(olds, k as int, p_sess_bound);
            assert forall|i2: int, t: int|
                #![trigger store.sessions@[i2], store.sessions@[t]]
                0 <= i2 < store.sessions@.len() && 0 <= t < store.sessions@.len() && i2
                    != t implies r_sess(store.sessions@[i2], store.sessions@[t]) by {
                assert(r_sess(olds.remove(k as int)[i2], olds.remove(k as int)[t]));
            }
            assert forall|i2: int|
                0 <= i2 < store.sessions@.len() implies 0 <= (
            #[trigger] store.sessions@[i2]).id < store.next_session_id by {
                assert(p_sess_bound(olds.remove(k as int)[i2]));
            }
        }
        Ok(s)
    }

    /// Adds a group; an absent description is stored as the empty text.
    pub fn create_group(&self, store: &mut Store, name: String, description: Option<String>) -> (g:
        Group)
        requires
            old(store).wf(),
            old(store).next_group_id < i64::MAX,
        ensures
            final(store).wf(),
            g.id == old(store).next_group_id,
            g.name@ == name@,
            g.description matches Some(d) && d@ == (match description {
                Some(d0) => d0@,
                None => Seq::<char>::empty(),
            }),
            final(store).groups@ == old(store).groups@.push(g),
            final(store).next_group_id == old(store).next_group_id + 1,
            same_admins(*old(store), *final(store)),
            same_users(*old(store), *final(store)),
            same_memberships(*old(store), *final(store)),
            same_sessions(*old(store), *final(store)),
            same_attendance(*old(store), *final(store)),
            same_log(*old(store), *final(store)),
    {
        let desc = match description {
            Some(d) => d,
            None => String::new(),
        };
        let g = Group { id: store.next_group_id, name, description: Some(desc) };
        let out = g.clone();
        store.groups.push(g);
        store.next_group_id = store.next_group_id + 1;
        out
    }

    /// Records a membership and returns the group's users.
    pub fn add_user_to_group(&self, store: &mut Store, user_id: i64, group_id: i64) -> (users: Vec<
        User,
    >)
        requires
            old(store).wf(),
        ensures
            final(store).wf(),
            final(store).memberships@ == old(store).memberships@.push(
                Membership { user_id, group_id },
            ),
            final(store).is_user_in_group(user_id, group_id),
            users@ == crate::query::users_in_group_seq(*final(store), group_id),
            same_admins(*old(store), *final(store)),
            same_users(*old(store), *final(store)),
            same_groups(*old(store), *final(store)),
            same_sessions(*old(store), *final(store)),
            same_attendance(*old(store), *final(store)),
            same_log(*old(store), *final(store)),
    {
        store.memberships.push(Membership { user_id, group_id });
        proof {
            let n = old(store).memberships@.len() as int;
            assert((#[trigger] store.memberships@[n]).user_id == user_id
                && store.memberships@[n].group_id == group_id);
        }
        store.users_in_group_vec(group_id)
    }

    /// Removes a membership (every row for the pair) and returns the group's
    /// remaining users.
    pub fn remove_user_from_group(&self, store: &mut Store, user_id: i64, group_id: i64) -> (users:
        Vec<User>)
        requires
            old(store).wf(),
        ensures
            final(store).wf(),
            final(store).memberships@ == old(store).memberships@.filter(
                membership_not_pair_pred(user_id, group_id),
            ),
            !final(store).is_user_in_group(user_id, group_id),
            users@ == crate::query::users_in_group_seq(*final(store), group_id),
            same_admins(*old(store), *final(store)),
            same_users(*old(store), *final(store)),
            same_groups(*old(store), *final(store)),
            same_sessions(*old(store), *final(store)),
            same_attendance(*old(store), *final(store)),
            same_log(*old(store), *final(store)),
    {
        let ghost pred = membership_not_pair_pred(user_id, group_id);
        let mut kept: Vec<Membership> = Vec::new();
        let n = store.memberships.len();
        let mut i: usize = 0;
        while i < n
            invariant
                n == store.memberships@.len(),
                i <= n,
                *store == *old(store),
                kept@ == store.memberships@.subrange(0, i as int).filter(pred),
                pred == membership_not_pair_pred(user_id, group_id),
            decreases n - i,
        {
            let m = store.memberships[i];
            if !(m.user_id == user_id && m.group_id == group_id) {
                kept.push(m);
            }
            proof {
                lemma_filter_step(store.memberships@, pred, i as int);
            }
            i += 1;
        }
        proof {
            assert(store.memberships@.subrange(0, n as int) =~= store.memberships@);
        }
        store.memberships = kept;
        proof {
            let olds = old(store).memberships@;
            if store.is_user_in_group(user_id, group_id) {
                let w = choose|w: int|
                    0 <= w < store.memberships@.len() && (#[trigger] store.memberships@[w]).user_id
                        == user_id && store.memberships@[w].group_id == group_id;
                crate::seq_facts::lemma_filter_element_index(olds, pred, w);
                let orig = choose|orig: int|
                    0 <= orig < olds.len() && olds[orig] == olds.filter(pred)[w];
                assert(pred(olds[orig]));
                assert(false);
            }
        }
        store.users_in_group_vec(group_id)
    }

    /// Removes a group, its memberships and its sessions; attendance marks of
    /// the removed sessions are left as dangling history, as the persistent
    /// layer leaves them.
    pub fn delete_group(&self, store: &mut Store, id: i64) -> (r: Result<Group, StoreError>)
        requires
            old(store).wf(),
        ensures
            final(store).wf(),
            match r {
                Ok(g) => old(store).has_group_id(id) && g == old(store).groups@[old(store).group_index_of(id)] && final(store).groups@ == old(store).groups@.remove(
                    old(store).group_index_of(id),
                ) && final(store).memberships@ == old(store).memberships@.filter(
                    membership_not_group_pred(id),
                ) && final(store).sessions@ == old(store).sessions@.filter(
                    session_not_group_pred(id),
                ) && final(store).next_group_id == old(store).next_group_id && final(store).next_session_id == old(store).next_session_id && same_admins(
                    *old(store),
                    *final(store),
                ) && same_users(*old(store), *final(store)) && same_attendance(
                    *old(store),
                    *final(store),
                ) && same_log(*old(store), *final(store)),
                Err(e) => e == StoreError::NotFound && !old(store).has_group_id(id) && *final(store)
                    == *old(store),
            },
    {
        let k = match find_group_index(store, id) {
            Some(k) => k,
            None => {
                return Err(StoreError::NotFound);
            },
        };
        let g = store.groups[k].clone();
        // memberships of the group
        let ghost mpred = membership_not_group_pred(id);
        let mut kept_m: Vec<Membership> = Vec::new();
        let n_m = store.memberships.len();
        let mut i: usize = 0;
        while i < n_m
            invariant
                n_m == store.memberships@.len(),
                i <= n_m,
                *store == *old(store),
                kept_m@ == store.memberships@.subrange(0, i as int).filter(mpred),
                mpred == membership_not_group_pred(id),
            decreases n_m - i,
        {
            let m = store.memberships[i];
            if m.group_id != id {
                kept_m.push(m);
            }
            proof {
                lemma_filter_step(store.memberships@, mpred, i as int);
            }
            i += 1;
        }
        proof {
            assert(store.memberships@.subrange(0, n_m as int) =~= store.memberships@);
        }
        // sessions of the group
        let ghost spred = session_not_group_pred(id);
        let mut kept_s: Vec<Session> = Vec::new();
        let n_s = store.sessions.len();
        let mut i2: usize = 0;
        while i2 < n_s
            invariant
                n_s == store.sessions@.len(),
                i2 <= n_s,
                *store == *old(store),
                kept_s@ == store.sessions@.subrange(0, i2 as int).filter(spred),
                spred == session_not_group_pred(id),
            decreases n_s - i2,
        {
            let s = store.sessions[i2];
            if s.group_id != id {
                kept_s.push(s);
            }
            proof {
                lemma_filter_step(store.sessions@, spred, i2 as int);
            }
            i2 += 1;
        }
        proof {
            assert(store.sessions@.subrange(0, n_s as int) =~= store.sessions@);
        }
        store.memberships = kept_m;
        store.sessions = kept_s;
        store.groups.remove(k);
        proof {
            let olds = old(store).sessions@;
            let r_sess = |a: Session, b: Session|
                a.id != b.id && !(a.end_time is None && b.end_time is None && a.group_id
                    == b.group_id);
            assert forall|i3: int, t: int|
                0 <= i3 < olds.len() && 0 <= t < olds.len() && i3 != t implies r_sess(
                #[trigger] olds[i3],
                #[trigger] olds[t],
            ) by {
                if i3 < t {
                } else {
                    assert(olds[t].id != olds[i3].id);
                }
            }
            lemma_filter_preserves_pairwise(olds, spred, r_sess);
            let p_sess_bound = |x: Session| 0 <= x.id < old(store).next_session_id;
            lemma_filter_preserves_each(olds, spred, p_sess_bound);
            assert forall|i3: int, t: int|
                #![trigger store.sessions@[i3], store.sessions@[t]]
                0 <= i3 < store.sessions@.len() && 0 <= t < store.sessions@.len() && i3
                    != t implies r_sess(store.sessions@[i3], store.sessions@[t]) by {
                assert(r_sess(olds.filter(spred)[i3], olds.filter(spred)[t]));
            }
            assert forall|i3: int|
                0 <= i3 < store.sessions@.len() implies 0 <= (
            #[trigger] store.sessions@[i3]).id < store.next_session_id by {
                assert(p_sess_bound(olds.filter(spred)[i3]));
            }
            let oldg = old(store).groups@;
            let r_grp = |a: Group, b: Group| a.id != b.id;
            assert forall|i3: int, t: int|
                0 <= i3 < oldg.len() && 0 <= t < oldg.len() && i3 != t implies r_grp(
                #[trigger] oldg[i3],
                #[trigger] oldg[t],
            ) by {
                if i3 < t {
                } else {
                    assert(oldg[t].id != oldg[i3].id);
                }
            }
            lemma_remove_preserves_pairwise(oldg, k as int, r_grp);
            let p_grp_bound = |x: Group| 0 <= x.id < old(store).next_group_id;
            lemma_remove_preserves_each(oldg, k as int, p_grp_bound);
            assert forall|i3: int, t: int|
                #![trigger store.groups@[i3], store.groups@[t]]
                0 <= i3 < t < store.groups@.len() implies store.groups@[i3].id
                != store.groups@[t].id by {
                assert(r_grp(oldg.remove(k as int)[i3], oldg.remove(k as int)[t]));
            }
            assert forall|i3: int|
                0 <= i3 < store.groups@.len() implies 0 <= (#[trigger] store.groups@[i3]).id
                < store.next_group_id by {
                assert(p_grp_bound(oldg.remove(k as int)[i3]));
            }
        }
        Ok(g)
    }

    /// Marks attendance of a user against the group's open session; a mark is
    /// created only while a session is open, so without one there is nothing
    /// to mark against.
    pub fn mark_attendance(&self, store: &mut Store, user_id: i64, group_id: i64) -> (r: Result<
        Attendance,
        StoreError,
    >)
        requires
            old(store).wf(),
            old(store).next_attendance_id < i64::MAX,
        ensures
            final(store).wf(),
            match r {
                Ok(a) => old(store).has_open_session(group_id) && a.session_id == old(store).open_session_of(group_id).id && !old(store).has_mark(user_id, a.session_id)
                    && a.user_id == user_id && a.id == old(store).next_attendance_id && final(store).attendance@ == old(store).attendance@.push(a) && final(store).next_attendance_id
                    == old(store).next_attendance_id + 1 && same_admins(*old(store), *final(store))
                    && same_users(*old(store), *final(store)) && same_groups(
                    *old(store),
                    *final(store),
                ) && same_memberships(*old(store), *final(store)) && same_sessions(
                    *old(store),
                    *final(store),
                ) && same_log(*old(store), *final(store)),
                Err(StoreError::NoSessionForGroup) => !old(store).has_open_session(group_id)
                    && *final(store) == *old(store),
                Err(StoreError::AlreadyMarked) => old(store).has_open_session(group_id) && old(store).has_mark(user_id, old(store).open_session_of(group_id).id) && *final(store)
                    == *old(store),
                Err(_) => false,
            },
    {
        let session_id = match store.find_open_session(group_id) {
            Some(session_id) => session_id,
            None => {
                return Err(StoreError::NoSessionForGroup);
            },
        };
        if store.has_attendance(user_id, session_id) {
            return Err(StoreError::AlreadyMarked);
        }
        let a = store.mark_attendance(user_id, session_id);
        Ok(a)
    }

    /// Removes the attendance mark of a user in a session: the explicit
    /// administrative correction.
    pub fn unmark_attendance(&self, store: &mut Store, user_id: i64, session_id: i64) -> (r: Result<
        Attendance,
        StoreError,
    >)
        requires
            old(store).wf(),
        ensures
            final(store).wf(),
            match r {
                Ok(a) => old(store).has_mark(user_id, session_id) && a == old(store).attendance@[
                    old(store).mark_index_of(user_id, session_id)
                ] && final(store).attendance@ == old(store).attendance@.remove(
                    old(store).mark_index_of(user_id, session_id),
                ) && final(store).next_attendance_id == old(store).next_attendance_id
                    && same_admins(*old(store), *final(store)) && same_users(
                    *old(store),
                    *final(store),
                ) && same_groups(*old(store), *final(store)) && same_memberships(
                    *old(store),
                    *final(store),
                ) && same_sessions(*old(store), *final(store)) && same_log(
                    *old(store),
                    *final(store),
                ),
                Err(e) => e == StoreError::NotFound && !old(store).has_mark(user_id, session_id)
                    && *final(store) == *old(store),
            },
    {
        let n = store.attendance.len();
        let mut i: usize = 0;
        while i < n
            invariant
                n == store.attendance@.len(),
                i <= n,
                *store == *old(store),
                store.wf(),
                forall|j: int|
                    0 <= j < i ==> !((#[trigger] store.attendance@[j]).user_id == user_id
                        && store.attendance@[j].session_id == session_id),
            decreases n - i,
        {
            let a = store.attendance[i];
            if a.user_id == user_id && a.session_id == session_id {
                proof {
                    assert(store.has_mark(user_id, session_id));
                    assert(store.mark_index_of(user_id, session_id) == i) by {
                        let k = store.mark_index_of(user_id, session_id);
                        assert(0 <= k < store.attendance@.len() && store.attendance@[k].user_id
                            == user_id && store.attendance@[k].session_id == session_id);
                    }
                }
                store.attendance.remove(i);
                proof {
                    let olda = old(store).attendance@;
                    let r_marks = |x: Attendance, y: Attendance|
                        x.id != y.id && !(x.user_id == y.user_id && x.session_id == y.session_id);
                    assert forall|i2: int, t: int|
                        0 <= i2 < olda.len() && 0 <= t < olda.len() && i2 != t implies r_marks(
                        #[trigger] olda[i2],
                        #[trigger] olda[t],
                    ) by {
                        if i2 < t {
                        } else {
                            assert(olda[t].id != olda[i2].id);
                        }
                    }
                    lemma_remove_preserves_pairwise(olda, i as int, r_marks);
                    let p_bound = |x: Attendance| 0 <= x.id < old(store).next_attendance_id;
                    lemma_remove_preserves_each(olda, i as int, p_bound);
                    assert forall|i2: int, t: int|
                        #![trigger store.attendance@[i2], store.attendance@[t]]
                        0 <= i2 < store.attendance@.len() && 0 <= t < store.attendance@.len() && i2
                            != t implies r_marks(store.attendance@[i2], store.attendance@[t]) by {
                        assert(r_marks(olda.remove(i as int)[i2], olda.remove(i as int)[t]));
                    }
                    assert forall|i2: int|
                        0 <= i2 < store.attendance@.len() implies 0 <= (
                    #[trigger] store.attendance@[i2]).id < store.next_attendance_id by {
                        assert(p_bound(olda.remove(i as int)[i2]));
                    }
                }
                return Ok(a);
            }
            i += 1;
        }
        Err(StoreError::NotFound)
    }
}

} // verus!
