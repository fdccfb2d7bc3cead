//! The attendance store: the identity & membership roster (administrators,
//! users, groups, memberships) and the session/attendance state (sessions,
//! attendance marks, scan log), with the invariants the scan resolver relies
//! on and the primitive operations it is built from.

use vstd::prelude::*;

use crate::model::{Admin, Attendance, Group, Membership, RfidLog, Session, User};

verus! {

/// Is `s` an open session of group `group_id`?
pub open spec fn session_is_open_for(s: Session, group_id: i64) -> bool {
    s.group_id == group_id && s.end_time is None
}

/// The administrators are untouched.
pub open spec fn same_admins(pre: Store, post: Store) -> bool {
    &&& post.admins@ == pre.admins@
    &&& post.next_admin_id == pre.next_admin_id
}

/// The users are untouched.
pub open spec fn same_users(pre: Store, post: Store) -> bool {
    &&& post.users@ == pre.users@
    &&& post.next_user_id == pre.next_user_id
}

/// The groups are untouched.
pub open spec fn same_groups(pre: Store, post: Store) -> bool {
    &&& post.groups@ == pre.groups@
    &&& post.next_group_id == pre.next_group_id
}

/// The membership relation is untouched.
pub open spec fn same_memberships(pre: Store, post: Store) -> bool {
    post.memberships@ == pre.memberships@
}

/// The rosters (administrators, users, groups, memberships) are untouched.
pub open spec fn same_identity(pre: Store, post: Store) -> bool {
    &&& same_admins(pre, post)
    &&& same_users(pre, post)
    &&& same_groups(pre, post)
    &&& same_memberships(pre, post)
}

/// The sessions are untouched.
pub open spec fn same_sessions(pre: Store, post: Store) -> bool {
    &&& post.sessions@ == pre.sessions@
    &&& post.next_session_id == pre.next_session_id
}

/// The attendance marks are untouched.
pub open spec fn same_attendance(pre: Store, post: Store) -> bool {
    &&& post.attendance@ == pre.attendance@
    &&& post.next_attendance_id == pre.next_attendance_id
}

/// The scan log is untouched.
pub open spec fn same_log(pre: Store, post: Store) -> bool {
    post.rfid_logs@ == pre.rfid_logs@
}

/// Exactly one log entry, carrying `card` and `timestamp`, was appended.
pub open spec fn log_appended(pre: Store, post: Store, card: Seq<char>, timestamp: i64) -> bool {
    &&& post.rfid_logs@.len() == pre.rfid_logs@.len() + 1
    &&& post.rfid_logs@.drop_last() == pre.rfid_logs@
    &&& post.rfid_logs@.last().rfid@ == card
    &&& post.rfid_logs@.last().timestamp == timestamp
}

/// Stores that agree on the rosters answer every card and membership lookup
/// alike.
pub proof fn lemma_identity_reads_agree(pre: Store, post: Store, card: Seq<char>)
    requires
        pre.wf(),
        same_identity(pre, post),
    ensures
        post.is_admin_card(card) == pre.is_admin_card(card),
        pre.is_admin_card(card) ==> post.admin_for_card(card) == pre.admin_for_card(card),
        post.is_user_card(card) == pre.is_user_card(card),
        pre.is_user_card(card) ==> post.user_for_card(card) == pre.user_for_card(card),
        forall|u: i64, g: i64|
            #[trigger] post.is_user_in_group(u, g) == pre.is_user_in_group(u, g),
{
    if pre.is_admin_card(card) {
        let i = pre.admin_index_for(card);
        assert(0 <= i < post.admins@.len() && post.admins@[i].rfid@ == card);
        let j = post.admin_index_for(card);
        assert(pre.admins@[j].rfid@ == card);
        assert(i == j);
    }
    if post.is_admin_card(card) {
        let i = post.admin_index_for(card);
        assert(pre.admins@[i].rfid@ == card);
    }
    if pre.is_user_card(card) {
        let i = pre.user_index_for(card);
        assert(0 <= i < post.users@.len() && post.users@[i].rfid@ == card);
        let j = post.user_index_for(card);
        assert(pre.users@[j].rfid@ == card);
        assert(i == j);
    }
    if post.is_user_card(card) {
        let i = post.user_index_for(card);
        assert(pre.users@[i].rfid@ == card);
    }
    assert forall|u: i64, g: i64|
        #[trigger] post.is_user_in_group(u, g) == pre.is_user_in_group(u, g) by {
        if pre.is_user_in_group(u, g) {
            let i = choose|i: int|
                0 <= i < pre.memberships@.len() && (#[trigger] pre.memberships@[i]).user_id == u
                    && pre.memberships@[i].group_id == g;
            assert((#[trigger] post.memberships@[i]).user_id == u && post.memberships@[i].group_id
                == g);
        }
        if post.is_user_in_group(u, g) {
            let i = choose|i: int|
                0 <= i < post.memberships@.len() && (#[trigger] post.memberships@[i]).user_id == u
                    && post.memberships@[i].group_id == g;
            assert((#[trigger] pre.memberships@[i]).user_id == u && pre.memberships@[i].group_id
                == g);
        }
    }
}

/// Stores that agree on the sessions answer the open-session lookup alike.
pub proof fn lemma_session_reads_agree(pre: Store, post: Store, group_id: i64)
    requires
        pre.one_open_session_per_group(),
        same_sessions(pre, post),
    ensures
        post.has_open_session(group_id) == pre.has_open_session(group_id),
        pre.has_open_session(group_id) ==> post.open_session_index(group_id)
            == pre.open_session_index(group_id) && post.open_session_of(group_id)
            == pre.open_session_of(group_id),
{
    if pre.has_open_session(group_id) {
        let i = pre.open_session_index(group_id);
        assert(0 <= i < post.sessions@.len() && session_is_open_for(post.sessions@[i], group_id));
        assert(post.has_open_session(group_id));
        let j = post.open_session_index(group_id);
        assert(session_is_open_for(pre.sessions@[j], group_id));
        assert(i == j);
    }
    if post.has_open_session(group_id) {
        let i = post.open_session_index(group_id);
        assert(session_is_open_for(pre.sessions@[i], group_id));
        assert(pre.has_open_session(group_id));
    }
}

/// Stores that agree on the attendance marks answer the mark lookup alike.
pub proof fn lemma_mark_reads_agree(pre: Store, post: Store)
    requires
        same_attendance(pre, post),
    ensures
        forall|u: i64, s: i64| #[trigger] post.has_mark(u, s) == pre.has_mark(u, s),
{
    assert forall|u: i64, s: i64| #[trigger] post.has_mark(u, s) == pre.has_mark(u, s) by {
        if pre.has_mark(u, s) {
            let i = choose|i: int|
                0 <= i < pre.attendance@.len() && (#[trigger] pre.attendance@[i]).user_id == u
                    && pre.attendance@[i].session_id == s;
            assert((#[trigger] post.attendance@[i]).user_id == u && post.attendance@[i].session_id
                == s);
        }
        if post.has_mark(u, s) {
            let i = choose|i: int|
                0 <= i < post.attendance@.len() && (#[trigger] post.attendance@[i]).user_id == u
                    && post.attendance@[i].session_id == s;
            assert((#[trigger] pre.attendance@[i]).user_id == u && pre.attendance@[i].session_id
                == s);
        }
    }
}

/// The whole persistent state: rosters, sessions, marks and the scan log,
/// plus the identifier counters that stand for the database's serial columns.
pub struct Store {
    pub admins: Vec<Admin>,
    pub users: Vec<User>,
    pub groups: Vec<Group>,
    pub memberships: Vec<Membership>,
    pub sessions: Vec<Session>,
    pub attendance: Vec<Attendance>,
    pub rfid_logs: Vec<RfidLog>,
    pub next_admin_id: i64,
    pub next_user_id: i64,
    pub next_group_id: i64,
    pub next_session_id: i64,
    pub next_attendance_id: i64,
}

impl Store {
    // ----- roster specifications -----

    /// Some administrator's card reads `card`.
    pub open spec fn is_admin_card(self, card: Seq<char>) -> bool {
        exists|i: int| 0 <= i < self.admins@.len() && self.admins@[i].rfid@ == card
    }

    /// The index of the administrator whose card reads `card` (unique when
    /// the store is well formed).
    pub open spec fn admin_index_for(self, card: Seq<char>) -> int {
        choose|i: int| 0 <= i < self.admins@.len() && self.admins@[i].rfid@ == card
    }

    /// The administrator whose card reads `card`.
    pub open spec fn admin_for_card(self, card: Seq<char>) -> Admin {
        self.admins@[self.admin_index_for(card)]
    }

    /// Some user's card reads `card`.
    pub open spec fn is_user_card(self, card: Seq<char>) -> bool {
        exists|i: int| 0 <= i < self.users@.len() && self.users@[i].rfid@ == card
    }

    /// The index of the user whose card reads `card` (unique when the store
    /// is well formed).
    pub open spec fn user_index_for(self, card: Seq<char>) -> int {
        choose|i: int| 0 <= i < self.users@.len() && self.users@[i].rfid@ == card
    }

    /// The user whose card reads `card`.
    pub open spec fn user_for_card(self, card: Seq<char>) -> User {
        self.users@[self.user_index_for(card)]
    }

    /// A user with identifier `user_id` exists.
    pub open spec fn has_user_id(self, user_id: i64) -> bool {
        exists|i: int| 0 <= i < self.users@.len() && self.users@[i].id == user_id
    }

    /// The index of the user with identifier `user_id`.
    pub open spec fn user_index_of(self, user_id: i64) -> int {
        choose|i: int| 0 <= i < self.users@.len() && self.users@[i].id == user_id
    }

    /// A group with identifier `group_id` exists.
    pub open spec fn has_group_id(self, group_id: i64) -> bool {
        exists|i: int| 0 <= i < self.groups@.len() && self.groups@[i].id == group_id
    }

    /// The index of the group with identifier `group_id`.
    pub open spec fn group_index_of(self, group_id: i64) -> int {
        choose|i: int| 0 <= i < self.groups@.len() && self.groups@[i].id == group_id
    }

    /// The membership relation: user `user_id` belongs to group `group_id`.
    pub open spec fn is_user_in_group(self, user_id: i64, group_id: i64) -> bool {
        exists|i: int|
            0 <= i < self.memberships@.len() && (#[trigger] self.memberships@[i]).user_id
                == user_id && self.memberships@[i].group_id == group_id
    }

    // ----- session and attendance specifications -----

    /// Group `group_id` has an open session.
    pub open spec fn has_open_session(self, group_id: i64) -> bool {
        exists|i: int|
            0 <= i < self.sessions@.len() && session_is_open_for(
                #[trigger] self.sessions@[i],
                group_id,
            )
    }

    /// The index of the open session of group `group_id` (unique when the
    /// store is well formed).
    pub open spec fn open_session_index(self, group_id: i64) -> int {
        choose|i: int|
            0 <= i < self.sessions@.len() && session_is_open_for(self.sessions@[i], group_id)
    }

    /// The open session of group `group_id`.
    pub open spec fn open_session_of(self, group_id: i64) -> Session {
        self.sessions@[self.open_session_index(group_id)]
    }

    /// A session with identifier `session_id` exists.
    pub open spec fn has_session_id(self, session_id: i64) -> bool {
        exists|i: int| 0 <= i < self.sessions@.len() && self.sessions@[i].id == session_id
    }

    /// The index of the session with identifier `session_id`.
    pub open spec fn session_index_of(self, session_id: i64) -> int {
        choose|i: int| 0 <= i < self.sessions@.len() && self.sessions@[i].id == session_id
    }

    /// An open session with identifier `session_id` exists.
    pub open spec fn has_open_session_id(self, session_id: i64) -> bool {
        exists|i: int|
            0 <= i < self.sessions@.len() && (#[trigger] self.sessions@[i]).id == session_id
                && self.sessions@[i].end_time is None
    }

    /// An attendance mark for `user_id` in session `session_id` exists.
    pub open spec fn has_mark(self, user_id: i64, session_id: i64) -> bool {
        exists|i: int|
            0 <= i < self.attendance@.len() && (#[trigger] self.attendance@[i]).user_id == user_id
                && self.attendance@[i].session_id == session_id
    }

    /// The index of the mark for `user_id` in session `session_id` (unique
    /// when the store is well formed).
    pub open spec fn mark_index_of(self, user_id: i64, session_id: i64) -> int {
        choose|i: int|
            0 <= i < self.attendance@.len() && self.attendance@[i].user_id == user_id
                && self.attendance@[i].session_id == session_id
    }

    // ----- invariants -----

    /// No group has two open sessions: the first invariant of the system.
    pub open spec fn one_open_session_per_group(self) -> bool {
        forall|i: int, j: int|
            #![trigger self.sessions@[i], self.sessions@[j]]
            0 <= i < self.sessions@.len() && 0 <= j < self.sessions@.len() && i != j
                && self.sessions@[i].end_time is None && self.sessions@[j].end_time is None
                ==> self.sessions@[i].group_id != self.sessions@[j].group_id
    }

    /// No (user, session) pair has two attendance marks: the second invariant
    /// of the system.
    pub open spec fn one_mark_per_user_session(self) -> bool {
        forall|i: int, j: int|
            #![trigger self.attendance@[i], self.attendance@[j]]
            0 <= i < self.attendance@.len() && 0 <= j < self.attendance@.len() && i != j ==> !(
            self.attendance@[i].user_id == self.attendance@[j].user_id
                && self.attendance@[i].session_id == self.attendance@[j].session_id)
    }

    /// Administrator identifiers and cards are unique; identifiers sit below
    /// the counter.
    pub open spec fn admins_wf(self) -> bool {
        &&& 0 <= self.next_admin_id
        &&& forall|i: int, j: int|
            #![trigger self.admins@[i], self.admins@[j]]
            0 <= i < j < self.admins@.len() ==> self.admins@[i].id != self.admins@[j].id
                && self.admins@[i].rfid@ != self.admins@[j].rfid@
        &&& forall|i: int|
            0 <= i < self.admins@.len() ==> 0 <= (#[trigger] self.admins@[i]).id
                < self.next_admin_id
    }

    /// User identifiers and cards are unique; identifiers sit below the
    /// counter.
    pub open spec fn users_wf(self) -> bool {
        &&& 0 <= self.next_user_id
        &&& forall|i: int, j: int|
            #![trigger self.users@[i], self.users@[j]]
            0 <= i < j < self.users@.len() ==> self.users@[i].id != self.users@[j].id
                && self.users@[i].rfid@ != self.users@[j].rfid@
        &&& forall|i: int|
            0 <= i < self.users@.len() ==> 0 <= (#[trigger] self.users@[i]).id < self.next_user_id
    }

    /// Group identifiers are unique and sit below the counter.
    pub open spec fn groups_wf(self) -> bool {
        &&& 0 <= self.next_group_id
        &&& forall|i: int, j: int|
            #![trigger self.groups@[i], self.groups@[j]]
            0 <= i < j < self.groups@.len() ==> self.groups@[i].id != self.groups@[j].id
        &&& forall|i: int|
            0 <= i < self.groups@.len() ==> 0 <= (#[trigger] self.groups@[i]).id
                < self.next_group_id
    }

    /// Session identifiers are unique and sit below the counter, and no group
    /// has two open sessions.
    pub open spec fn sessions_wf(self) -> bool {
        &&& 0 <= self.next_session_id
        &&& forall|i: int, j: int|
            #![trigger self.sessions@[i], self.sessions@[j]]
            0 <= i < j < self.sessions@.len() ==> self.sessions@[i].id != self.sessions@[j].id
        &&& forall|i: int|
            0 <= i < self.sessions@.len() ==> 0 <= (#[trigger] self.sessions@[i]).id
                < self.next_session_id
        &&& self.one_open_session_per_group()
    }

    /// Mark identifiers are unique and sit below the counter, and no
    /// (user, session) pair has two marks.
    pub open spec fn attendance_wf(self) -> bool {
        &&& 0 <= self.next_attendance_id
        &&& forall|i: int, j: int|
            #![trigger self.attendance@[i], self.attendance@[j]]
            0 <= i < j < self.attendance@.len() ==> self.attendance@[i].id
                != self.attendance@[j].id
        &&& forall|i: int|
            0 <= i < self.attendance@.len() ==> 0 <= (#[trigger] self.attendance@[i]).id
                < self.next_attendance_id
        &&& self.one_mark_per_user_session()
    }

    /// Well-formedness of the whole store: identifiers are unique and below
    /// their counters, card identifiers are unique within each roster, and
    /// the two attendance invariants hold.
    pub open spec fn wf(self) -> bool {
        &&& self.admins_wf()
        &&& self.users_wf()
        &&& self.groups_wf()
        &&& self.sessions_wf()
        &&& self.attendance_wf()
    }

    /// The identifier counters the scan resolver may consume still have room.
    pub open spec fn has_capacity(self) -> bool {
        &&& self.next_session_id < i64::MAX
        &&& self.next_attendance_id < i64::MAX
    }

    // ----- construction -----

    /// An empty store.
    pub fn new() -> (s: Store)
        ensures
            s.wf(),
            s.has_capacity(),
            s.admins@ =~= Seq::<Admin>::empty(),
            s.users@ =~= Seq::<User>::empty(),
            s.groups@ =~= Seq::<Group>::empty(),
            s.memberships@ =~= Seq::<Membership>::empty(),
            s.sessions@ =~= Seq::<Session>::empty(),
            s.attendance@ =~= Seq::<Attendance>::empty(),
            s.rfid_logs@ =~= Seq::<RfidLog>::empty(),
    {
        Store {
            admins: Vec::new(),
            users: Vec::new(),
            groups: Vec::new(),
            memberships: Vec::new(),
            sessions: Vec::new(),
            attendance: Vec::new(),
            rfid_logs: Vec::new(),
            next_admin_id: 1,
            next_user_id: 1,
            next_group_id: 1,
            next_session_id: 1,
            next_attendance_id: 1,
        }
    }

    // ----- identity & membership lookups -----

    /// Exact-match lookup of an administrator by card identifier; a miss is
    /// not an error.
    pub fn find_admin_by_card(&self, card: &String) -> (r: Option<i64>)
        requires
            self.wf(),
        ensures
            match r {
                Some(id) => self.is_admin_card(card@) && id == self.admin_for_card(card@).id,
                None => !self.is_admin_card(card@),
            },
    {
        let n = self.admins.len();
        let mut i: usize = 0;
        while i < n
            invariant
                n == self.admins@.len(),
                i <= n,
                self.wf(),
                forall|j: int| 0 <= j < i ==> (#[trigger] self.admins@[j]).rfid@ != card@,
            decreases n - i,
        {
            if self.admins[i].rfid == *card {
                assert(self.is_admin_card(card@));
                assert(self.admin_index_for(card@) == i) by {
                    let k = self.admin_index_for(card@);
                    assert(0 <= k < self.admins@.len() && self.admins@[k].rfid@ == card@);
                }
                return Some(self.admins[i].id);
            }
            i += 1;
        }
        None
    }

    /// Exact-match lookup of a user by card identifier; a miss is not an
    /// error.
    pub fn find_user_by_card(&self, card: &String) -> (r: Option<i64>)
        requires
            self.wf(),
        ensures
            match r {
                Some(id) => self.is_user_card(card@) && id == self.user_for_card(card@).id,
                None => !self.is_user_card(card@),
            },
    {
        let n = self.users.len();
        let mut i: usize = 0;
        while i < n
            invariant
                n == self.users@.len(),
                i <= n,
                self.wf(),
                forall|j: int| 0 <= j < i ==> (#[trigger] self.users@[j]).rfid@ != card@,
            decreases n - i,
        {
            if self.users[i].rfid == *card {
                assert(self.is_user_card(card@));
                assert(self.user_index_for(card@) == i) by {
                    let k = self.user_index_for(card@);
                    assert(0 <= k < self.users@.len() && self.users@[k].rfid@ == card@);
                }
                return Some(self.users[i].id);
            }
            i += 1;
        }
        None
    }

    /// Existence check on the membership relation.
    pub fn is_member(&self, user_id: i64, group_id: i64) -> (r: bool)
        ensures
            r == self.is_user_in_group(user_id, group_id),
    {
        let n = self.memberships.len();
        let mut i: usize = 0;
        while i < n
            invariant
                n == self.memberships@.len(),
                i <= n,
                forall|j: int|
                    0 <= j < i ==> !((#[trigger] self.memberships@[j]).user_id == user_id
                        && self.memberships@[j].group_id == group_id),
            decreases n - i,
        {
            let m = self.memberships[i];
            if m.user_id == user_id && m.group_id == group_id {
                return true;
            }
            i += 1;
        }
        false
    }

    /// The unique open session of the group, by identifier, or none.
    pub fn find_open_session(&self, group_id: i64) -> (r: Option<i64>)
        requires
            self.wf(),
        ensures
            match r {
                Some(sid) => self.has_open_session(group_id) && sid == self.open_session_of(
                    group_id,
                ).id,
                None => !self.has_open_session(group_id),
            },
    {
        let n = self.sessions.len();
        let mut i: usize = 0;
        while i < n
            invariant
                n == self.sessions@.len(),
                i <= n,
                self.wf(),
                forall|j: int|
                    0 <= j < i ==> !session_is_open_for(#[trigger] self.sessions@[j], group_id),
            decreases n - i,
        {
            let s = self.sessions[i];
            if s.group_id == group_id && s.end_time.is_none() {
                assert(session_is_open_for(self.sessions@[i as int], group_id));
                assert(self.has_open_session(group_id));
                assert(self.open_session_index(group_id) == i) by {
                    let k = self.open_session_index(group_id);
                    assert(0 <= k < self.sessions@.len() && session_is_open_for(
                        self.sessions@[k],
                        group_id,
                    ));
                }
                return Some(s.id);
            }
            i += 1;
        }
        None
    }

    // ----- session/attendance writes -----

    /// Opens a new session for the group; the caller must have established
    /// that no open session exists.
    pub fn open_session(&mut self, group_id: i64, created_by: i64, now: i64) -> (s: Session)
        requires
            old(self).wf(),
            old(self).next_session_id < i64::MAX,
            !old(self).has_open_session(group_id),
        ensures
            final(self).wf(),
            s == (Session {
                id: old(self).next_session_id,
                group_id,
                created_by,
                start_time: now,
                end_time: None::<i64>,
            }),
            final(self).sessions@ == old(self).sessions@.push(s),
            final(self).next_session_id == old(self).next_session_id + 1,
            same_identity(*old(self), *final(self)),
            same_attendance(*old(self), *final(self)),
            same_log(*old(self), *final(self)),
    {
        let s = Session {
            id: self.next_session_id,
            group_id,
            created_by,
            start_time: now,
            end_time: None,
        };
        self.sessions.push(s);
        self.next_session_id = self.next_session_id + 1;
        proof {
            let old_len = old(self).sessions@.len() as int;
            assert forall|i: int, j: int|
                #![trigger self.sessions@[i], self.sessions@[j]]
                0 <= i < self.sessions@.len() && 0 <= j < self.sessions@.len() && i != j
                    && self.sessions@[i].end_time is None && self.sessions@[j].end_time
                    is None implies self.sessions@[i].group_id != self.sessions@[j].group_id by {
                if i == old_len && 0 <= j < old_len {
                    if self.sessions@[j].group_id == group_id {
                        assert(session_is_open_for(old(self).sessions@[j], group_id));
                        assert(old(self).has_open_session(group_id));
                    }
                } else if j == old_len && 0 <= i < old_len {
                    if self.sessions@[i].group_id == group_id {
                        assert(session_is_open_for(old(self).sessions@[i], group_id));
                        assert(old(self).has_open_session(group_id));
                    }
                }
            }
        }
        s
    }

    /// Sets the end time of the open session with the given identifier;
    /// closing an already-closed session is a precondition violation, never
    /// attempted by the resolver.
    pub fn close_session(&mut self, session_id: i64, end_time: i64) -> (s: Session)
        requires
            old(self).wf(),
            old(self).has_open_session_id(session_id),
        ensures
            final(self).wf(),
            s == (Session {
                end_time: Some(end_time),
                ..old(self).sessions@[old(self).session_index_of(session_id)]
            }),
            final(self).sessions@ == old(self).sessions@.update(
                old(self).session_index_of(session_id),
                s,
            ),
            final(self).next_session_id == old(self).next_session_id,
            same_identity(*old(self), *final(self)),
            same_attendance(*old(self), *final(self)),
            same_log(*old(self), *final(self)),
    {
        let n = self.sessions.len();
        let mut i: usize = 0;
        while i < n
            invariant
                n == self.sessions@.len(),
                i <= n,
                *self == *old(self),
                self.wf(),
                self.has_open_session_id(session_id),
                forall|j: int| 0 <= j < i ==> (#[trigger] self.sessions@[j]).id != session_id,
            decreases n - i,
        {
            let s = self.sessions[i];
            if s.id == session_id {
                assert(i == self.session_index_of(session_id)) by {
                    let k = self.session_index_of(session_id);
                    assert(0 <= k < self.sessions@.len() && self.sessions@[k].id == session_id);
                }
                let closed = Session {
                    id: s.id,
                    group_id: s.group_id,
                    created_by: s.created_by,
                    start_time: s.start_time,
                    end_time: Some(end_time),
                };
                self.sessions[i] = closed;
                return closed;
            }
            i += 1;
        }
        // the precondition guarantees a session with this identifier exists
        proof {
            let w = choose|w: int|
                0 <= w < self.sessions@.len() && (#[trigger] self.sessions@[w]).id == session_id
                    && self.sessions@[w].end_time is None;
            assert(self.sessions@[w].id != session_id);
            assert(false);
        }
        unreached()
    }

    /// Records attendance of `user_id` in `session_id`; the caller must have
    /// established that no mark exists for the pair.
    pub fn mark_attendance(&mut self, user_id: i64, session_id: i64) -> (a: Attendance)
        requires
            old(self).wf(),
            old(self).next_attendance_id < i64::MAX,
            !old(self).has_mark(user_id, session_id),
        ensures
            final(self).wf(),
            a == (Attendance { id: old(self).next_attendance_id, user_id, session_id }),
            final(self).attendance@ == old(self).attendance@.push(a),
            final(self).next_attendance_id == old(self).next_attendance_id + 1,
            same_identity(*old(self), *final(self)),
            same_sessions(*old(self), *final(self)),
            same_log(*old(self), *final(self)),
    {
        let a = Attendance { id: self.next_attendance_id, user_id, session_id };
        self.attendance.push(a);
        self.next_attendance_id = self.next_attendance_id + 1;
        proof {
            let old_len = old(self).attendance@.len() as int;
            assert forall|i: int, j: int|
                #![trigger self.attendance@[i], self.attendance@[j]]
                0 <= i < self.attendance@.len() && 0 <= j < self.attendance@.len() && i
                    != j implies !(self.attendance@[i].user_id == self.attendance@[j].user_id
                && self.attendance@[i].session_id == self.attendance@[j].session_id) by {
                if i == old_len && 0 <= j < old_len {
                    if self.attendance@[j].user_id == user_id && self.attendance@[j].session_id
                        == session_id {
                        assert(old(self).has_mark(user_id, session_id));
                    }
                } else if j == old_len && 0 <= i < old_len {
                    if self.attendance@[i].user_id == user_id && self.attendance@[i].session_id
                        == session_id {
                        assert(old(self).has_mark(user_id, session_id));
                    }
                }
            }
        }
        a
    }

    /// Appends the raw card identifier to the audit log; every scan attempt
    /// is recorded whatever its outcome.
    pub fn append_scan_log(&mut self, card: &String, timestamp: i64)
        ensures
            log_appended(*old(self), *final(self), card@, timestamp),
            same_identity(*old(self), *final(self)),
            same_sessions(*old(self), *final(self)),
            same_attendance(*old(self), *final(self)),
            final(self).wf() == old(self).wf(),
            final(self).has_capacity() == old(self).has_capacity(),
    {
        let entry = RfidLog { rfid: card.clone(), timestamp };
        self.rfid_logs.push(entry);
        proof {
            assert(self.rfid_logs@.drop_last() =~= old(self).rfid_logs@);
        }
    }

    /// Whether `user_id` has already marked attendance in `session_id`.
    pub fn has_attendance(&self, user_id: i64, session_id: i64) -> (r: bool)
        ensures
            r == self.has_mark(user_id, session_id),
    {
        let n = self.attendance.len();
        let mut i: usize = 0;
        while i < n
            invariant
                n == self.attendance@.len(),
                i <= n,
                forall|j: int|
                    0 <= j < i ==> !((#[trigger] self.attendance@[j]).user_id == user_id
                        && self.attendance@[j].session_id == session_id),
            decreases n - i,
        {
            let a = self.attendance[i];
            if a.user_id == user_id && a.session_id == session_id {
                return true;
            }
            i += 1;
        }
        false
    }
}

} // verus!
