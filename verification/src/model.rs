//! The entities of the attendance store: people, administrators, groups,
//! memberships, sessions, attendance marks and the raw scan log.

use vstd::prelude::*;

verus! {

/// A person who can mark attendance. The card identifier (`rfid`) is unique
/// among users.
#[derive(Debug, PartialEq, Eq)]
pub struct User {
    pub id: i64,
    pub name: String,
    pub rfid: String,
}

impl Clone for User {
    fn clone(&self) -> (r: Self)
        ensures
            r == *self,
    {
        User { id: self.id, name: self.name.clone(), rfid: self.rfid.clone() }
    }
}

/// An administrator, who opens and closes sessions by scanning a card. The
/// card identifier is unique among administrators, but the administrator and
/// user card spaces may overlap; the resolver checks administrators first.
#[derive(Debug, PartialEq, Eq)]
pub struct Admin {
    pub id: i64,
    pub username: String,
    pub rfid: String,
    pub credential: String,
}

impl Clone for Admin {
    fn clone(&self) -> (r: Self)
        ensures
            r == *self,
    {
        Admin {
            id: self.id,
            username: self.username.clone(),
            rfid: self.rfid.clone(),
            credential: self.credential.clone(),
        }
    }
}

/// A group of users; sessions are scoped to a group.
#[derive(Debug, PartialEq, Eq)]
pub struct Group {
    pub id: i64,
    pub name: String,
    pub description: Option<String>,
}

impl Clone for Group {
    fn clone(&self) -> (r: Self)
        ensures
            r == *self,
    {
        Group {
            id: self.id,
            name: self.name.clone(),
            description: match &self.description {
                Some(d) => Some(d.clone()),
                None => None,
            },
        }
    }
}

/// The many-to-many relation authorizing a user to attend a group's sessions.
#[derive(Clone, Copy, PartialEq, Eq, Structural, Debug)]
pub struct Membership {
    pub user_id: i64,
    pub group_id: i64,
}

/// An attendance session, owned by a group and created by an administrator.
/// A session with an unset end time is open; a group has at most one open
/// session at any time.
#[derive(Clone, Copy, PartialEq, Eq, Structural, Debug)]
pub struct Session {
    pub id: i64,
    pub group_id: i64,
    pub created_by: i64,
    pub start_time: i64,
    pub end_time: Option<i64>,
}

/// One user's attendance in one session; at most one mark exists per
/// (user, session) pair.
#[derive(Clone, Copy, PartialEq, Eq, Structural, Debug)]
pub struct Attendance {
    pub id: i64,
    pub user_id: i64,
    pub session_id: i64,
}

/// One entry of the append-only scan audit log, written for every scan
/// attempt whatever its outcome.
#[derive(Debug, PartialEq, Eq)]
pub struct RfidLog {
    pub rfid: String,
    pub timestamp: i64,
}

impl Clone for RfidLog {
    fn clone(&self) -> (r: Self)
        ensures
            r == *self,
    {
        RfidLog { rfid: self.rfid.clone(), timestamp: self.timestamp }
    }
}

} // verus!
