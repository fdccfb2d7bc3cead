//! Scenarios for the scan resolver: every outcome, the tie-break policy, the
//! unconditional audit log, and the serialized race scenarios.

use attendance::mutation::MutationRoot;
use attendance::outcome::{decide, CardClass};
use attendance::outcome::ScanOutcome;
use attendance::resolver::{scan, scan_at, ScanRequest};
use attendance::store::Store;

/// A store with one administrator (card "ADMIN-1"), one group, and one user
/// (card "USER-1") who belongs to the group. Returns (store, admin_id,
/// group_id, user_id).
fn seeded() -> (Store, i64, i64, i64) {
    let mut st = Store::new();
    let m = MutationRoot;
    let admin = m
        .create_admin(
            &mut st,
            "warden".to_string(),
            "ADMIN-1".to_string(),
            "secret".to_string(),
        )
        .unwrap();
    let group = m.create_group(&mut st, "robotics".to_string(), None);
    let user = m
        .create_user(&mut st, "alice".to_string(), "USER-1".to_string())
        .unwrap();
    m.add_user_to_group(&mut st, user.id, group.id);
    (st, admin.id, group.id, user.id)
}

fn open_sessions_of(st: &Store, group_id: i64) -> usize {
    st.sessions
        .iter()
        .filter(|s| s.group_id == group_id && s.end_time.is_none())
        .count()
}

#[test]
fn admin_scan_with_no_open_session_starts_one() {
    let (mut st, admin_id, group_id, _) = seeded();
    let card = "ADMIN-1".to_string();
    let o = scan_at(&mut st, &card, group_id, 1000);
    assert_eq!(o, ScanOutcome::SessionStarted);
    assert_eq!(st.sessions.len(), 1);
    let s = st.sessions[0];
    assert_eq!(s.group_id, group_id);
    assert_eq!(s.created_by, admin_id);
    assert_eq!(s.start_time, 1000);
    assert!(s.end_time.is_none());
    assert_eq!(open_sessions_of(&st, group_id), 1);
}

#[test]
fn admin_scan_with_open_session_ends_it() {
    let (mut st, _, group_id, _) = seeded();
    let card = "ADMIN-1".to_string();
    scan_at(&mut st, &card, group_id, 1000);
    let o = scan_at(&mut st, &card, group_id, 2000);
    assert_eq!(o, ScanOutcome::SessionEnded);
    // no new session was created; the one session is closed at the second
    // scan's instant
    assert_eq!(st.sessions.len(), 1);
    assert_eq!(st.sessions[0].end_time, Some(2000));
    assert_eq!(open_sessions_of(&st, group_id), 0);
}

#[test]
fn member_scan_marks_attendance_once() {
    let (mut st, _, group_id, user_id) = seeded();
    let admin_card = "ADMIN-1".to_string();
    let user_card = "USER-1".to_string();
    scan_at(&mut st, &admin_card, group_id, 1000);
    let o = scan_at(&mut st, &user_card, group_id, 1100);
    assert_eq!(o, ScanOutcome::AttendanceMarked);
    assert_eq!(st.attendance.len(), 1);
    assert_eq!(st.attendance[0].user_id, user_id);
    assert_eq!(st.attendance[0].session_id, st.sessions[0].id);
}

#[test]
fn member_scan_repeated_is_already_marked() {
    let (mut st, _, group_id, _) = seeded();
    let admin_card = "ADMIN-1".to_string();
    let user_card = "USER-1".to_string();
    scan_at(&mut st, &admin_card, group_id, 1000);
    scan_at(&mut st, &user_card, group_id, 1100);
    let o = scan_at(&mut st, &user_card, group_id, 1200);
    assert_eq!(o, ScanOutcome::AlreadyMarked);
    // idempotent: still exactly one mark
    assert_eq!(st.attendance.len(), 1);
}

#[test]
fn nonmember_scan_is_forbidden_whatever_the_session_state() {
    let (mut st, _, group_id, _) = seeded();
    let m = MutationRoot;
    let outsider = m
        .create_user(&mut st, "mallory".to_string(), "USER-2".to_string())
        .unwrap();
    let _ = outsider;
    let outsider_card = "USER-2".to_string();
    // no session at all
    let o = scan_at(&mut st, &outsider_card, group_id, 900);
    assert_eq!(o, ScanOutcome::Forbidden);
    // with an open session it is forbidden too, and nothing changes
    let admin_card = "ADMIN-1".to_string();
    scan_at(&mut st, &admin_card, group_id, 1000);
    let sessions_before = st.sessions.clone();
    let o = scan_at(&mut st, &outsider_card, group_id, 1100);
    assert_eq!(o, ScanOutcome::Forbidden);
    assert_eq!(st.attendance.len(), 0);
    assert_eq!(st.sessions.len(), sessions_before.len());
}

#[test]
fn member_scan_without_session_is_no_active_session() {
    let (mut st, _, group_id, _) = seeded();
    let user_card = "USER-1".to_string();
    let o = scan_at(&mut st, &user_card, group_id, 1000);
    assert_eq!(o, ScanOutcome::NoActiveSession);
    assert_eq!(st.attendance.len(), 0);
}

#[test]
fn unknown_card_is_unrecognized_and_still_logged() {
    let (mut st, _, group_id, _) = seeded();
    let logs_before = st.rfid_logs.len();
    let card = "NOBODY".to_string();
    let o = scan_at(&mut st, &card, group_id, 1000);
    assert_eq!(o, ScanOutcome::Unrecognized);
    assert_eq!(st.rfid_logs.len(), logs_before + 1);
    let last = &st.rfid_logs[st.rfid_logs.len() - 1];
    assert_eq!(last.rfid, "NOBODY");
    assert_eq!(last.timestamp, 1000);
}

#[test]
fn every_scan_is_logged_whatever_the_outcome() {
    let (mut st, _, group_id, _) = seeded();
    let cards = ["ADMIN-1", "USER-1", "USER-1", "NOBODY", "ADMIN-1"];
    for (i, c) in cards.iter().enumerate() {
        let card = c.to_string();
        scan_at(&mut st, &card, group_id, 1000 + i as i64);
    }
    assert_eq!(st.rfid_logs.len(), cards.len());
    for (i, c) in cards.iter().enumerate() {
        assert_eq!(st.rfid_logs[i].rfid, *c);
        assert_eq!(st.rfid_logs[i].timestamp, 1000 + i as i64);
    }
}

#[test]
fn admin_precedence_over_member_on_shared_card() {
    // a card valid in both rosters resolves through the administrator branch
    let mut st = Store::new();
    let m = MutationRoot;
    m.create_admin(
        &mut st,
        "warden".to_string(),
        "SHARED".to_string(),
        "secret".to_string(),
    )
    .unwrap();
    let group = m.create_group(&mut st, "chess".to_string(), None);
    let user = m
        .create_user(&mut st, "bob".to_string(), "SHARED".to_string())
        .unwrap();
    m.add_user_to_group(&mut st, user.id, group.id);
    let card = "SHARED".to_string();
    let o = scan_at(&mut st, &card, group.id, 1000);
    assert_eq!(o, ScanOutcome::SessionStarted);
    assert_eq!(st.attendance.len(), 0);
}

#[test]
fn two_admin_scans_serialize_to_one_session() {
    // two administrators race to open a session for the same group; once the
    // store serializes them, exactly one session exists and it is closed
    let (mut st, _, group_id, _) = seeded();
    let m = MutationRoot;
    m.create_admin(
        &mut st,
        "second".to_string(),
        "ADMIN-2".to_string(),
        "secret".to_string(),
    )
    .unwrap();
    let sessions_before = st.sessions.len();
    let card1 = "ADMIN-1".to_string();
    let card2 = "ADMIN-2".to_string();
    let o1 = scan_at(&mut st, &card1, group_id, 1000);
    let o2 = scan_at(&mut st, &card2, group_id, 1001);
    assert_eq!(o1, ScanOutcome::SessionStarted);
    assert_eq!(o2, ScanOutcome::SessionEnded);
    assert_eq!(st.sessions.len(), sessions_before + 1);
    assert_eq!(open_sessions_of(&st, group_id), 0);
}

#[test]
fn two_member_scans_serialize_to_one_mark() {
    let (mut st, _, group_id, _) = seeded();
    let admin_card = "ADMIN-1".to_string();
    let user_card = "USER-1".to_string();
    scan_at(&mut st, &admin_card, group_id, 1000);
    let o1 = scan_at(&mut st, &user_card, group_id, 1001);
    let o2 = scan_at(&mut st, &user_card, group_id, 1002);
    assert_eq!(o1, ScanOutcome::AttendanceMarked);
    assert_eq!(o2, ScanOutcome::AlreadyMarked);
    assert_eq!(st.attendance.len(), 1);
}

#[test]
fn groups_have_independent_sessions() {
    let (mut st, _, group_id, _) = seeded();
    let m = MutationRoot;
    let other = m.create_group(&mut st, "debate".to_string(), None);
    let card = "ADMIN-1".to_string();
    let o1 = scan_at(&mut st, &card, group_id, 1000);
    let o2 = scan_at(&mut st, &card, other.id, 1001);
    assert_eq!(o1, ScanOutcome::SessionStarted);
    assert_eq!(o2, ScanOutcome::SessionStarted);
    assert_eq!(open_sessions_of(&st, group_id), 1);
    assert_eq!(open_sessions_of(&st, other.id), 1);
}

#[test]
fn scan_request_uses_the_clock() {
    let (mut st, _, group_id, _) = seeded();
    let req = ScanRequest { rfid: "ADMIN-1".to_string(), group_id };
    let o = scan(&mut st, &req);
    assert_eq!(o, ScanOutcome::SessionStarted);
    assert_eq!(st.rfid_logs.len(), 1);
    assert_eq!(st.rfid_logs[0].rfid, "ADMIN-1");
    // the session start and the log entry carry the same instant
    assert_eq!(st.sessions[0].start_time, st.rfid_logs[0].timestamp);
}

#[test]
fn outcome_messages_match_the_boundary_table() {
    assert_eq!(
        ScanOutcome::SessionEnded.message(),
        "Active session ended successfully."
    );
    assert_eq!(
        ScanOutcome::SessionStarted.message(),
        "Admin session started successfully."
    );
    assert_eq!(
        ScanOutcome::AttendanceMarked.message(),
        "Attendance marked successfully."
    );
    assert_eq!(
        ScanOutcome::AlreadyMarked.message(),
        "User has already marked attendance for this session."
    );
    assert_eq!(
        ScanOutcome::Forbidden.message(),
        "User is not part of the specified group."
    );
    assert_eq!(
        ScanOutcome::NoActiveSession.message(),
        "No active session found for the specified group."
    );
    assert_eq!(ScanOutcome::Unrecognized.message(), "RFID not recognized");
}

#[test]
fn outcome_status_codes_match_the_boundary_table() {
    assert_eq!(ScanOutcome::SessionEnded.status_code(), 200);
    assert_eq!(ScanOutcome::SessionStarted.status_code(), 201);
    assert_eq!(ScanOutcome::AttendanceMarked.status_code(), 200);
    assert_eq!(ScanOutcome::AlreadyMarked.status_code(), 409);
    assert_eq!(ScanOutcome::Forbidden.status_code(), 403);
    assert_eq!(ScanOutcome::NoActiveSession.status_code(), 404);
    assert_eq!(ScanOutcome::Unrecognized.status_code(), 404);

    assert!(ScanOutcome::SessionEnded.is_success());
    assert!(ScanOutcome::SessionStarted.is_success());
    assert!(ScanOutcome::AttendanceMarked.is_success());
    assert!(!ScanOutcome::AlreadyMarked.is_success());
    assert!(!ScanOutcome::Forbidden.is_success());
    assert!(!ScanOutcome::NoActiveSession.is_success());
    assert!(!ScanOutcome::Unrecognized.is_success());
}

#[test]
fn decide_matches_the_resolver_on_snapshots() {
    assert_eq!(
        decide(CardClass::Admin(1), false, None, false),
        ScanOutcome::SessionStarted
    );
    assert_eq!(
        decide(CardClass::Admin(1), false, Some(5), false),
        ScanOutcome::SessionEnded
    );
    assert_eq!(
        decide(CardClass::Member(2), false, Some(5), false),
        ScanOutcome::Forbidden
    );
    assert_eq!(
        decide(CardClass::Member(2), true, None, false),
        ScanOutcome::NoActiveSession
    );
    assert_eq!(
        decide(CardClass::Member(2), true, Some(5), true),
        ScanOutcome::AlreadyMarked
    );
    assert_eq!(
        decide(CardClass::Member(2), true, Some(5), false),
        ScanOutcome::AttendanceMarked
    );
    assert_eq!(
        decide(CardClass::Unknown, false, None, false),
        ScanOutcome::Unrecognized
    );
}

#[test]
fn scan_on_an_empty_store_is_unrecognized_but_logged() {
    let mut st = Store::new();
    let card = "ANY".to_string();
    let o = scan_at(&mut st, &card, 1, 500);
    assert_eq!(o, ScanOutcome::Unrecognized);
    assert_eq!(st.rfid_logs.len(), 1);
    assert_eq!(st.rfid_logs[0].rfid, "ANY");
    assert!(st.sessions.is_empty());
    assert!(st.attendance.is_empty());
}
