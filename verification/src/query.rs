//! The read-only data-access surface: lookups by identifier and the filtered
//! listings of users, sessions and attendance marks.

use vstd::prelude::*;

use crate::model::{Admin, Attendance, Group, RfidLog, Session, User};
use crate::store::Store;

verus! {

/// The predicate selecting the users that belong to `group_id` in `s`.
pub open spec fn user_in_group_pred(s: Store, group_id: i64) -> spec_fn(User) -> bool {
    |u: User| s.is_user_in_group(u.id, group_id)
}

/// The users of `s` that belong to `group_id`, in roster order.
pub open spec fn users_in_group_seq(s: Store, group_id: i64) -> Seq<User> {
    s.users@.filter(user_in_group_pred(s, group_id))
}

/// The predicate selecting sessions by optional group and creator filters.
pub open spec fn session_filter_pred(
    group_id: Option<i64>,
    created_by: Option<i64>,
) -> spec_fn(Session) -> bool {
    |x: Session|
        (group_id matches Some(g) ==> x.group_id == g) && (created_by matches Some(c)
            ==> x.created_by == c)
}

/// The mark `a` belongs to group `g`: the session it references exists and is
/// owned by `g`.
pub open spec fn mark_in_group(s: Store, a: Attendance, g: i64) -> bool {
    s.has_session_id(a.session_id) && s.sessions@[s.session_index_of(a.session_id)].group_id == g
}

/// The predicate selecting marks by optional session, user and group filters.
pub open spec fn mark_filter_pred(
    s: Store,
    session_id: Option<i64>,
    user_id: Option<i64>,
    group_id: Option<i64>,
) -> spec_fn(Attendance) -> bool {
    |a: Attendance|
        (session_id matches Some(sid) ==> a.session_id == sid) && (user_id matches Some(u)
            ==> a.user_id == u) && (group_id matches Some(g) ==> mark_in_group(s, a, g))
}

impl Store {
    /// The users of the group, cloned out in roster order.
    pub fn users_in_group_vec(&self, group_id: i64) -> (r: Vec<User>)
        ensures
            r@ == users_in_group_seq(*self, group_id),
    {
        let ghost pred = user_in_group_pred(*self, group_id);
        let mut out: Vec<User> = Vec::new();
        let n = self.users.len();
        let mut i: usize = 0;
        while i < n
            invariant
                n == self.users@.len(),
                i <= n,
                out@ == self.users@.subrange(0, i as int).filter(pred),
                pred == user_in_group_pred(*self, group_id),
            decreases n - i,
        {
            let u = &self.users[i];
            if self.is_member(u.id, group_id) {
                out.push(u.clone());
            }
            proof {
                crate::seq_facts::lemma_filter_step(self.users@, pred, i as int);
            }
            i += 1;
        }
        proof {
            assert(self.users@.subrange(0, n as int) =~= self.users@);
        }
        out
    }
}

/// The read side of the data-access layer.
pub struct QueryRoot;

impl QueryRoot {
    /// All users, or the users of one group.
    pub fn users(&self, store: &Store, group_id: Option<i64>) -> (r: Vec<User>)
        ensures
            match group_id {
                Some(g) => r@ == users_in_group_seq(*store, g),
                None => r@ == store.users@,
            },
    {
        match group_id {
            Some(g) => store.users_in_group_vec(g),
            None => {
                let mut out: Vec<User> = Vec::new();
                let n = store.users.len();
                let mut i: usize = 0;
                while i < n
                    invariant
                        n == store.users@.len(),
                        i <= n,
                        out@ == store.users@.subrange(0, i as int),
                    decreases n - i,
                {
                    out.push(store.users[i].clone());
                    proof {
                        assert(store.users@.subrange(0, i as int + 1) =~= store.users@.subrange(
                            0,
                            i as int,
                        ).push(store.users@[i as int]));
                    }
                    i += 1;
                }
                proof {
                    assert(store.users@.subrange(0, n as int) =~= store.users@);
                }
                out
            },
        }
    }

    /// A user by identifier.
    pub fn user(&self, store: &Store, id: i64) -> (r: Option<User>)
        requires
            store.wf(),
        ensures
            match r {
                Some(u) => store.has_user_id(id) && u == store.users@[store.user_index_of(id)],
                None => !store.has_user_id(id),
            },
    {
        let n = store.users.len();
        let mut i: usize = 0;
        while i < n
            invariant
                n == store.users@.len(),
                i <= n,
                store.wf(),
                forall|j: int| 0 <= j < i ==> (#[trigger] store.users@[j]).id != id,
            decreases n - i,
        {
            if store.users[i].id == id {
                assert(store.has_user_id(id));
                assert(store.user_index_of(id) == i) by {
                    let k = store.user_index_of(id);
                    assert(0 <= k < store.users@.len() && store.users@[k].id == id);
                }
                return Some(store.users[i].clone());
            }
            i += 1;
        }
        None
    }

    /// An administrator by identifier.
    pub fn admin(&self, store: &Store, id: i64) -> (r: Option<Admin>)
        requires
            store.wf(),
        ensures
            match r {
                Some(a) => exists|k: int|
                    0 <= k < store.admins@.len() && store.admins@[k] == a && a.id == id,
                None => !exists|k: int|
                    0 <= k < store.admins@.len() && (#[trigger] store.admins@[k]).id == id,
            },
    {
        let n = store.admins.len();
        let mut i: usize = 0;
        while i < n
            invariant
                n == store.admins@.len(),
                i <= n,
                forall|j: int| 0 <= j < i ==> (#[trigger] store.admins@[j]).id != id,
            decreases n - i,
        {
            if store.admins[i].id == id {
                return Some(store.admins[i].clone());
            }
            i += 1;
        }
        None
    }

    /// All groups.
    pub fn groups(&self, store: &Store) -> (r: Vec<Group>)
        ensures
            r@ == store.groups@,
    {
        let mut out: Vec<Group> = Vec::new();
        let n = store.groups.len();
        let mut i: usize = 0;
        while i < n
            invariant
                n == store.groups@.len(),
                i <= n,
                out@ == store.groups@.subrange(0, i as int),
            decreases n - i,
        {
            out.push(store.groups[i].clone());
            proof {
                assert(store.groups@.subrange(0, i as int + 1) =~= store.groups@.subrange(
                    0,
                    i as int,
                ).push(store.groups@[i as int]));
            }
            i += 1;
        }
        proof {
            assert(store.groups@.subrange(0, n as int) =~= store.groups@);
        }
        out
    }

    /// A group by identifier.
    pub fn group(&self, store: &Store, id: i64) -> (r: Option<Group>)
        requires
            store.wf(),
        ensures
            match r {
                Some(g) => store.has_group_id(id) && g == store.groups@[store.group_index_of(id)],
                None => !store.has_group_id(id),
            },
    {
        let n = store.groups.len();
        let mut i: usize = 0;
        while i < n
            invariant
                n == store.groups@.len(),
                i <= n,
                store.wf(),
                forall|j: int| 0 <= j < i ==> (#[trigger] store.groups@[j]).id != id,
            decreases n - i,
        {
            if store.groups[i].id == id {
                assert(store.has_group_id(id));
                assert(store.group_index_of(id) == i) by {
                    let k = store.group_index_of(id);
                    assert(0 <= k < store.groups@.len() && store.groups@[k].id == id);
                }
                return Some(store.groups[i].clone());
            }
            i += 1;
        }
        None
    }

    /// A session by identifier.
    pub fn session(&self, store: &Store, id: i64) -> (r: Option<Session>)
        requires
            store.wf(),
        ensures
            match r {
                Some(s) => store.has_session_id(id) && s == store.sessions@[store.session_index_of(
                    id,
                )],
                None => !store.has_session_id(id),
            },
    {
        let n = store.sessions.len();
        let mut i: usize = 0;
        while i < n
            invariant
                n == store.sessions@.len(),
                i <= n,
                store.wf(),
                forall|j: int| 0 <= j < i ==> (#[trigger] store.sessions@[j]).id != id,
            decreases n - i,
        {
            if store.sessions[i].id == id {
                assert(store.has_session_id(id));
                assert(store.session_index_of(id) == i) by {
                    let k = store.session_index_of(id);
                    assert(0 <= k < store.sessions@.len() && store.sessions@[k].id == id);
                }
                return Some(store.sessions[i]);
            }
            i += 1;
        }
        None
    }

    /// All sessions, optionally narrowed to one group, one creator, or both.
    pub fn sessions(&self, store: &Store, group_id: Option<i64>, created_by: Option<i64>) -> (r:
        Vec<Session>)
        ensures
            r@ == store.sessions@.filter(session_filter_pred(group_id, created_by)),
    {
        let ghost pred = session_filter_pred(group_id, created_by);
        let mut out: Vec<Session> = Vec::new();
        let n = store.sessions.len();
        let mut i: usize = 0;
        while i < n
            invariant
                n == store.sessions@.len(),
                i <= n,
                out@ == store.sessions@.subrange(0, i as int).filter(pred),
                pred == session_filter_pred(group_id, created_by),
            decreases n - i,
        {
            let s = store.sessions[i];
            let group_ok = match group_id {
                Some(g) => s.group_id == g,
                None => true,
            };
            let creator_ok = match created_by {
                Some(c) => s.created_by == c,
                None => true,
            };
            if group_ok && creator_ok {
                out.push(s);
            }
            proof {
                crate::seq_facts::lemma_filter_step(store.sessions@, pred, i as int);
            }
            i += 1;
        }
        proof {
            assert(store.sessions@.subrange(0, n as int) =~= store.sessions@);
        }
        out
    }

    /// All attendance marks, optionally narrowed by session, user or group —
    /// the group filter selects the marks whose session is owned by that
    /// group.
    pub fn attendance(
        &self,
        store: &Store,
        session_id: Option<i64>,
        user_id: Option<i64>,
        group_id: Option<i64>,
    ) -> (r: Vec<Attendance>)
        requires
            store.wf(),
        ensures
            r@ == store.attendance@.filter(mark_filter_pred(*store, session_id, user_id, group_id)),
    {
        let ghost pred = mark_filter_pred(*store, session_id, user_id, group_id);
        let mut out: Vec<Attendance> = Vec::new();
        let n = store.attendance.len();
        let mut i: usize = 0;
        while i < n
            invariant
                n == store.attendance@.len(),
                i <= n,
                store.wf(),
                out@ == store.attendance@.subrange(0, i as int).filter(pred),
                pred == mark_filter_pred(*store, session_id, user_id, group_id),
            decreases n - i,
        {
            let a = store.attendance[i];
            let session_ok = match session_id {
                Some(sid) => a.session_id == sid,
                None => true,
            };
            let user_ok = match user_id {
                Some(u) => a.user_id == u,
                None => true,
            };
            let group_ok = match group_id {
                Some(g) => match self.session(store, a.session_id) {
                    Some(s) => s.group_id == g,
                    None => false,
                },
                None => true,
            };
            if session_ok && user_ok && group_ok {
                out.push(a);
            }
            proof {
                crate::seq_facts::lemma_filter_step(store.attendance@, pred, i as int);
            }
            i += 1;
        }
        proof {
            assert(store.attendance@.subrange(0, n as int) =~= store.attendance@);
        }
        out
    }

    /// The whole scan log, oldest first.
    pub fn rfid_logs(&self, store: &Store) -> (r: Vec<RfidLog>)
        ensures
            r@ == store.rfid_logs@,
    {
        let mut out: Vec<RfidLog> = Vec::new();
        let n = store.rfid_logs.len();
        let mut i: usize = 0;
        while i < n
            invariant
                n == store.rfid_logs@.len(),
                i <= n,
                out@ == store.rfid_logs@.subrange(0, i as int),
            decreases n - i,
        {
            out.push(store.rfid_logs[i].clone());
            proof {
                assert(store.rfid_logs@.subrange(0, i as int + 1) =~= store.rfid_logs@.subrange(
                    0,
                    i as int,
                ).push(store.rfid_logs@[i as int]));
            }
            i += 1;
        }
        proof {
            assert(store.rfid_logs@.subrange(0, n as int) =~= store.rfid_logs@);
        }
        out
    }
}

} // verus!
