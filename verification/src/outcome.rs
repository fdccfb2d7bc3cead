//! The resolver's result type: one variant per possible meaning of a scan,
//! with the status class and human-readable message each one carries at the
//! external boundary, and the pure decision step that picks the variant from
//! a snapshot of the store.

use vstd::prelude::*;

verus! {

/// What a card identifier means: an administrator, a user (member), or
/// nobody. When a card is valid for both rosters the administrator reading
/// takes precedence; that tie-break is deliberate policy.
#[derive(Clone, Copy, PartialEq, Eq, Structural, Debug)]
pub enum CardClass {
    Admin(i64),
    Member(i64),
    Unknown,
}

/// The meaning of one scan, exactly one per scan.
#[derive(Clone, Copy, PartialEq, Eq, Structural, Debug)]
pub enum ScanOutcome {
    /// An administrator scanned while the group had an open session: it was
    /// closed.
    SessionEnded,
    /// An administrator scanned while the group had no open session: a new
    /// one was opened.
    SessionStarted,
    /// A member of the group scanned during an open session and had no prior
    /// mark: attendance was recorded.
    AttendanceMarked,
    /// The member had already marked attendance in the open session.
    AlreadyMarked,
    /// The scanning user is not a member of the group.
    Forbidden,
    /// The group has no open session to mark attendance against.
    NoActiveSession,
    /// The card matches neither roster.
    Unrecognized,
}

/// The decision table of the resolver: given how the card was classified,
/// whether the user belongs to the group, the open session (if any) and
/// whether a mark already exists, the outcome is determined.
pub open spec fn decide_spec(
    class: CardClass,
    has_membership: bool,
    open_session: Option<i64>,
    already_marked: bool,
) -> ScanOutcome {
    match class {
        CardClass::Admin(_) => if open_session is Some {
            ScanOutcome::SessionEnded
        } else {
            ScanOutcome::SessionStarted
        },
        CardClass::Member(_) => if !has_membership {
            ScanOutcome::Forbidden
        } else if open_session is None {
            ScanOutcome::NoActiveSession
        } else if already_marked {
            ScanOutcome::AlreadyMarked
        } else {
            ScanOutcome::AttendanceMarked
        },
        CardClass::Unknown => ScanOutcome::Unrecognized,
    }
}

/// The pure decision step over a snapshot of the store: callers that keep
/// the state elsewhere (say, behind a transactional store) read the snapshot,
/// call this, and perform the action the outcome names.
pub fn decide(
    class: CardClass,
    has_membership: bool,
    open_session: Option<i64>,
    already_marked: bool,
) -> (r: ScanOutcome)
    ensures
        r == decide_spec(class, has_membership, open_session, already_marked),
{
    match class {
        CardClass::Admin(_) => {
            if open_session.is_some() {
                ScanOutcome::SessionEnded
            } else {
                ScanOutcome::SessionStarted
            }
        },
        CardClass::Member(_) => {
            if !has_membership {
                ScanOutcome::Forbidden
            } else if open_session.is_none() {
                ScanOutcome::NoActiveSession
            } else if already_marked {
                ScanOutcome::AlreadyMarked
            } else {
                ScanOutcome::AttendanceMarked
            }
        },
        CardClass::Unknown => ScanOutcome::Unrecognized,
    }
}

/// The message each outcome carries at the external boundary.
pub open spec fn outcome_message_spec(outcome: ScanOutcome) -> Seq<char> {
    match outcome {
        ScanOutcome::SessionEnded => "Active session ended successfully."@,
        ScanOutcome::SessionStarted => "Admin session started successfully."@,
        ScanOutcome::AttendanceMarked => "Attendance marked successfully."@,
        ScanOutcome::AlreadyMarked => "User has already marked attendance for this session."@,
        ScanOutcome::Forbidden => "User is not part of the specified group."@,
        ScanOutcome::NoActiveSession => "No active session found for the specified group."@,
        ScanOutcome::Unrecognized => "RFID not recognized"@,
    }
}

/// The status code each outcome maps to at the external boundary.
pub open spec fn outcome_status_code_spec(outcome: ScanOutcome) -> u16 {
    match outcome {
        ScanOutcome::SessionEnded => 200,
        ScanOutcome::SessionStarted => 201,
        ScanOutcome::AttendanceMarked => 200,
        ScanOutcome::AlreadyMarked => 409,
        ScanOutcome::Forbidden => 403,
        ScanOutcome::NoActiveSession => 404,
        ScanOutcome::Unrecognized => 404,
    }
}

/// Success classification: the outcomes that report a performed transition.
pub open spec fn outcome_is_success_spec(outcome: ScanOutcome) -> bool {
    match outcome {
        ScanOutcome::SessionEnded | ScanOutcome::SessionStarted
            | ScanOutcome::AttendanceMarked => true,
        _ => false,
    }
}

impl ScanOutcome {
    /// The human-readable message of this outcome.
    pub fn message(&self) -> (r: String)
        ensures
            r@ == outcome_message_spec(*self),
    {
        match self {
            ScanOutcome::SessionEnded => "Active session ended successfully.".to_string(),
            ScanOutcome::SessionStarted => "Admin session started successfully.".to_string(),
            ScanOutcome::AttendanceMarked => "Attendance marked successfully.".to_string(),
            ScanOutcome::AlreadyMarked => "User has already marked attendance for this session.".to_string(),
            ScanOutcome::Forbidden => "User is not part of the specified group.".to_string(),
            ScanOutcome::NoActiveSession => "No active session found for the specified group.".to_string(),
            ScanOutcome::Unrecognized => "RFID not recognized".to_string(),
        }
    }

    /// The status code of this outcome.
    pub fn status_code(&self) -> (r: u16)
        ensures
            r == outcome_status_code_spec(*self),
    {
        match self {
            ScanOutcome::SessionEnded => 200,
            ScanOutcome::SessionStarted => 201,
            ScanOutcome::AttendanceMarked => 200,
            ScanOutcome::AlreadyMarked => 409,
            ScanOutcome::Forbidden => 403,
            ScanOutcome::NoActiveSession => 404,
            ScanOutcome::Unrecognized => 404,
        }
    }

    /// Whether this outcome reports a performed transition (a success at the
    /// external boundary) rather than a rejection.
    pub fn is_success(&self) -> (r: bool)
        ensures
            r == outcome_is_success_spec(*self),
    {
        match self {
            ScanOutcome::SessionEnded => true,
            ScanOutcome::SessionStarted => true,
            ScanOutcome::AttendanceMarked => true,
            _ => false,
        }
    }
}

} // verus!
