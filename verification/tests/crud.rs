//! Scenarios for the data-access surface: roster administration, session and
//! attendance corrections, and the query filters.

use attendance::model::Session;
use attendance::mutation::{MutationRoot, StoreError};
use attendance::query::QueryRoot;
use attendance::resolver::scan_at;
use attendance::store::Store;

#[test]
fn create_user_assigns_sequential_identifiers() {
    let mut st = Store::new();
    let m = MutationRoot;
    let a = m
        .create_user(&mut st, "alice".to_string(), "U-A".to_string())
        .unwrap();
    let b = m
        .create_user(&mut st, "bob".to_string(), "U-B".to_string())
        .unwrap();
    assert_eq!(a.id, 1);
    assert_eq!(b.id, 2);
    assert_eq!(st.users.len(), 2);
    assert_eq!(st.users[0].name, "alice");
    assert_eq!(st.users[0].rfid, "U-A");
}

#[test]
fn create_user_rejects_duplicate_card() {
    let mut st = Store::new();
    let m = MutationRoot;
    m.create_user(&mut st, "alice".to_string(), "U-A".to_string())
        .unwrap();
    let e = m.create_user(&mut st, "bob".to_string(), "U-A".to_string());
    assert_eq!(e, Err(StoreError::DuplicateCard));
    assert_eq!(st.users.len(), 1);
}

#[test]
fn create_admin_rejects_duplicate_card() {
    let mut st = Store::new();
    let m = MutationRoot;
    m.create_admin(
        &mut st,
        "warden".to_string(),
        "A-1".to_string(),
        "pw".to_string(),
    )
    .unwrap();
    let e = m.create_admin(
        &mut st,
        "other".to_string(),
        "A-1".to_string(),
        "pw".to_string(),
    );
    assert_eq!(e, Err(StoreError::DuplicateCard));
    assert_eq!(st.admins.len(), 1);
}

#[test]
fn update_user_rfid_rotates_the_card() {
    let mut st = Store::new();
    let m = MutationRoot;
    let u = m
        .create_user(&mut st, "alice".to_string(), "OLD".to_string())
        .unwrap();
    let updated = m.update_user_rfid(&mut st, u.id, "NEW".to_string()).unwrap();
    assert_eq!(updated.id, u.id);
    assert_eq!(updated.rfid, "NEW");
    assert_eq!(updated.name, "alice");
    assert_eq!(st.users[0].rfid, "NEW");

    assert_eq!(
        m.update_user_rfid(&mut st, 999, "X".to_string()),
        Err(StoreError::NotFound)
    );
    m.create_user(&mut st, "bob".to_string(), "TAKEN".to_string())
        .unwrap();
    assert_eq!(
        m.update_user_rfid(&mut st, u.id, "TAKEN".to_string()),
        Err(StoreError::DuplicateCard)
    );
}

#[test]
fn delete_user_removes_the_row() {
    let mut st = Store::new();
    let m = MutationRoot;
    let a = m
        .create_user(&mut st, "alice".to_string(), "U-A".to_string())
        .unwrap();
    m.create_user(&mut st, "bob".to_string(), "U-B".to_string())
        .unwrap();
    let removed = m.delete_user(&mut st, a.id).unwrap();
    assert_eq!(removed.name, "alice");
    assert_eq!(st.users.len(), 1);
    assert_eq!(st.users[0].name, "bob");
    assert_eq!(m.delete_user(&mut st, a.id), Err(StoreError::NotFound));
}

#[test]
fn create_group_defaults_the_description() {
    let mut st = Store::new();
    let m = MutationRoot;
    let g1 = m.create_group(&mut st, "robotics".to_string(), None);
    let g2 = m.create_group(
        &mut st,
        "chess".to_string(),
        Some("weekly".to_string()),
    );
    assert_eq!(g1.description, Some("".to_string()));
    assert_eq!(g2.description, Some("weekly".to_string()));
    assert_eq!(g1.id, 1);
    assert_eq!(g2.id, 2);
}

#[test]
fn membership_mutations_return_the_group_roster() {
    let mut st = Store::new();
    let m = MutationRoot;
    let g = m.create_group(&mut st, "robotics".to_string(), None);
    let a = m
        .create_user(&mut st, "alice".to_string(), "U-A".to_string())
        .unwrap();
    let b = m
        .create_user(&mut st, "bob".to_string(), "U-B".to_string())
        .unwrap();
    let roster = m.add_user_to_group(&mut st, a.id, g.id);
    assert_eq!(roster.len(), 1);
    assert_eq!(roster[0].name, "alice");
    let roster = m.add_user_to_group(&mut st, b.id, g.id);
    assert_eq!(roster.len(), 2);
    let roster = m.remove_user_from_group(&mut st, a.id, g.id);
    assert_eq!(roster.len(), 1);
    assert_eq!(roster[0].name, "bob");
}

#[test]
fn create_session_rejects_a_second_open_session() {
    let mut st = Store::new();
    let m = MutationRoot;
    let g = m.create_group(&mut st, "robotics".to_string(), None);
    let s = m.create_session(&mut st, g.id, 1, 1000).unwrap();
    assert_eq!(s.group_id, g.id);
    assert!(s.end_time.is_none());
    assert_eq!(
        m.create_session(&mut st, g.id, 1, 1001),
        Err(StoreError::OpenSessionExists)
    );
    assert_eq!(st.sessions.len(), 1);
}

#[test]
fn end_session_sets_the_end_time_once() {
    let mut st = Store::new();
    let m = MutationRoot;
    let g = m.create_group(&mut st, "robotics".to_string(), None);
    let s = m.create_session(&mut st, g.id, 1, 1000).unwrap();
    let ended = m.end_session(&mut st, s.id, 2000).unwrap();
    assert_eq!(ended.end_time, Some(2000));
    assert_eq!(st.sessions[0].end_time, Some(2000));
    assert_eq!(
        m.end_session(&mut st, s.id, 3000),
        Err(StoreError::SessionAlreadyClosed)
    );
    assert_eq!(m.end_session(&mut st, 999, 3000), Err(StoreError::NotFound));
}

#[test]
fn delete_session_removes_its_marks() {
    let mut st = Store::new();
    let m = MutationRoot;
    let g = m.create_group(&mut st, "robotics".to_string(), None);
    let u = m
        .create_user(&mut st, "alice".to_string(), "U-A".to_string())
        .unwrap();
    let s = m.create_session(&mut st, g.id, 1, 1000).unwrap();
    m.mark_attendance(&mut st, u.id, g.id).unwrap();
    assert_eq!(st.attendance.len(), 1);
    let removed = m.delete_session(&mut st, s.id).unwrap();
    assert_eq!(removed.id, s.id);
    assert_eq!(st.sessions.len(), 0);
    assert_eq!(st.attendance.len(), 0);
    assert_eq!(m.delete_session(&mut st, s.id), Err(StoreError::NotFound));
}

#[test]
fn delete_group_removes_memberships_and_sessions() {
    let mut st = Store::new();
    let m = MutationRoot;
    let g = m.create_group(&mut st, "robotics".to_string(), None);
    let other = m.create_group(&mut st, "chess".to_string(), None);
    let u = m
        .create_user(&mut st, "alice".to_string(), "U-A".to_string())
        .unwrap();
    m.add_user_to_group(&mut st, u.id, g.id);
    m.add_user_to_group(&mut st, u.id, other.id);
    m.create_session(&mut st, g.id, 1, 1000).unwrap();
    m.create_session(&mut st, other.id, 1, 1000).unwrap();
    let removed = m.delete_group(&mut st, g.id).unwrap();
    assert_eq!(removed.id, g.id);
    assert_eq!(st.groups.len(), 1);
    assert_eq!(st.groups[0].id, other.id);
    assert_eq!(st.memberships.len(), 1);
    assert_eq!(st.memberships[0].group_id, other.id);
    assert_eq!(st.sessions.len(), 1);
    assert_eq!(st.sessions[0].group_id, other.id);
    assert_eq!(m.delete_group(&mut st, g.id), Err(StoreError::NotFound));
}

#[test]
fn mark_attendance_mutation_requires_an_open_session() {
    let mut st = Store::new();
    let m = MutationRoot;
    let g = m.create_group(&mut st, "robotics".to_string(), None);
    let u = m
        .create_user(&mut st, "alice".to_string(), "U-A".to_string())
        .unwrap();
    assert_eq!(
        m.mark_attendance(&mut st, u.id, g.id),
        Err(StoreError::NoSessionForGroup)
    );
    // a closed session is not enough: marks are created only while a session
    // is open
    let s = m.create_session(&mut st, g.id, 1, 1000).unwrap();
    m.end_session(&mut st, s.id, 2000).unwrap();
    assert_eq!(
        m.mark_attendance(&mut st, u.id, g.id),
        Err(StoreError::NoSessionForGroup)
    );
    assert_eq!(st.attendance.len(), 0);
    // with an open session beside the older closed one, the mark goes against
    // the open one
    let s2 = m.create_session(&mut st, g.id, 1, 3000).unwrap();
    let a = m.mark_attendance(&mut st, u.id, g.id).unwrap();
    assert_eq!(a.user_id, u.id);
    assert_eq!(a.session_id, s2.id);
    assert_eq!(
        m.mark_attendance(&mut st, u.id, g.id),
        Err(StoreError::AlreadyMarked)
    );
    assert_eq!(st.attendance.len(), 1);
}

#[test]
fn unmark_attendance_removes_the_mark() {
    let mut st = Store::new();
    let m = MutationRoot;
    let g = m.create_group(&mut st, "robotics".to_string(), None);
    let u = m
        .create_user(&mut st, "alice".to_string(), "U-A".to_string())
        .unwrap();
    let s = m.create_session(&mut st, g.id, 1, 1000).unwrap();
    let a = m.mark_attendance(&mut st, u.id, g.id).unwrap();
    let removed = m.unmark_attendance(&mut st, u.id, s.id).unwrap();
    assert_eq!(removed, a);
    assert_eq!(st.attendance.len(), 0);
    assert_eq!(
        m.unmark_attendance(&mut st, u.id, s.id),
        Err(StoreError::NotFound)
    );
}

#[test]
fn query_users_lists_all_or_by_group() {
    let mut st = Store::new();
    let m = MutationRoot;
    let q = QueryRoot;
    let g = m.create_group(&mut st, "robotics".to_string(), None);
    let a = m
        .create_user(&mut st, "alice".to_string(), "U-A".to_string())
        .unwrap();
    m.create_user(&mut st, "bob".to_string(), "U-B".to_string())
        .unwrap();
    m.add_user_to_group(&mut st, a.id, g.id);
    let all = q.users(&st, None);
    assert_eq!(all.len(), 2);
    let in_group = q.users(&st, Some(g.id));
    assert_eq!(in_group.len(), 1);
    assert_eq!(in_group[0].name, "alice");
}

#[test]
fn query_lookups_by_identifier() {
    let mut st = Store::new();
    let m = MutationRoot;
    let q = QueryRoot;
    let g = m.create_group(&mut st, "robotics".to_string(), None);
    let u = m
        .create_user(&mut st, "alice".to_string(), "U-A".to_string())
        .unwrap();
    let adm = m
        .create_admin(
            &mut st,
            "warden".to_string(),
            "A-1".to_string(),
            "pw".to_string(),
        )
        .unwrap();
    let s = m.create_session(&mut st, g.id, adm.id, 1000).unwrap();

    assert_eq!(q.user(&st, u.id).unwrap().name, "alice");
    assert!(q.user(&st, 999).is_none());
    assert_eq!(q.group(&st, g.id).unwrap().name, "robotics");
    assert!(q.group(&st, 999).is_none());
    assert_eq!(q.session(&st, s.id).unwrap(), s);
    assert!(q.session(&st, 999).is_none());
    assert_eq!(q.admin(&st, adm.id).unwrap().username, "warden");
    assert!(q.admin(&st, 999).is_none());
    assert_eq!(q.groups(&st).len(), 1);
}

#[test]
fn query_sessions_filters_by_group_and_creator() {
    let mut st = Store::new();
    let m = MutationRoot;
    let q = QueryRoot;
    let g1 = m.create_group(&mut st, "robotics".to_string(), None);
    let g2 = m.create_group(&mut st, "chess".to_string(), None);
    let s1 = m.create_session(&mut st, g1.id, 1, 1000).unwrap();
    m.end_session(&mut st, s1.id, 1500).unwrap();
    let s2 = m.create_session(&mut st, g1.id, 2, 2000).unwrap();
    let s3 = m.create_session(&mut st, g2.id, 1, 3000).unwrap();

    let all: Vec<Session> = q.sessions(&st, None, None);
    assert_eq!(all.len(), 3);
    let of_g1 = q.sessions(&st, Some(g1.id), None);
    assert_eq!(of_g1.len(), 2);
    let by_1 = q.sessions(&st, None, Some(1));
    assert_eq!(by_1.len(), 2);
    assert!(by_1.iter().all(|s| s.created_by == 1));
    let of_g1_by_2 = q.sessions(&st, Some(g1.id), Some(2));
    assert_eq!(of_g1_by_2.len(), 1);
    assert_eq!(of_g1_by_2[0], s2);
    let of_g2_by_2 = q.sessions(&st, Some(g2.id), Some(2));
    assert!(of_g2_by_2.is_empty());
    let _ = s3;
}

#[test]
fn query_attendance_filters_by_session_user_and_group() {
    let mut st = Store::new();
    let m = MutationRoot;
    let q = QueryRoot;
    let g1 = m.create_group(&mut st, "robotics".to_string(), None);
    let g2 = m.create_group(&mut st, "chess".to_string(), None);
    let a = m
        .create_user(&mut st, "alice".to_string(), "U-A".to_string())
        .unwrap();
    let b = m
        .create_user(&mut st, "bob".to_string(), "U-B".to_string())
        .unwrap();
    let s1 = m.create_session(&mut st, g1.id, 1, 1000).unwrap();
    let s2 = m.create_session(&mut st, g2.id, 1, 1000).unwrap();
    m.mark_attendance(&mut st, a.id, g1.id).unwrap();
    m.mark_attendance(&mut st, b.id, g1.id).unwrap();
    m.mark_attendance(&mut st, a.id, g2.id).unwrap();

    assert_eq!(q.attendance(&st, None, None, None).len(), 3);
    assert_eq!(q.attendance(&st, Some(s1.id), None, None).len(), 2);
    assert_eq!(q.attendance(&st, None, Some(a.id), None).len(), 2);
    assert_eq!(q.attendance(&st, None, None, Some(g2.id)).len(), 1);
    let of_a_in_g1 = q.attendance(&st, None, Some(a.id), Some(g1.id));
    assert_eq!(of_a_in_g1.len(), 1);
    assert_eq!(of_a_in_g1[0].user_id, a.id);
    assert_eq!(of_a_in_g1[0].session_id, s1.id);
    assert_eq!(
        q.attendance(&st, Some(s2.id), Some(b.id), None).len(),
        0
    );
}

#[test]
fn query_rfid_logs_returns_the_audit_trail() {
    let mut st = Store::new();
    let m = MutationRoot;
    let q = QueryRoot;
    let g = m.create_group(&mut st, "robotics".to_string(), None);
    let card = "GHOST".to_string();
    scan_at(&mut st, &card, g.id, 1000);
    scan_at(&mut st, &card, g.id, 1001);
    let logs = q.rfid_logs(&st);
    assert_eq!(logs.len(), 2);
    assert_eq!(logs[0].rfid, "GHOST");
    assert_eq!(logs[0].timestamp, 1000);
    assert_eq!(logs[1].timestamp, 1001);
}
