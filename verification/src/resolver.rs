//! The scan resolver: the single decision procedure that receives a raw card
//! identifier plus a target group and decides what the scan means — start a
//! session, end a session, mark attendance, or reject — while preserving the
//! one-open-session-per-group and one-mark-per-(user, session) invariants.

use vstd::prelude::*;

use crate::model::{Attendance, Session};
use crate::outcome::{decide_spec, CardClass, ScanOutcome};
use crate::store::{log_appended, same_attendance, same_identity, same_sessions, Store};

verus! {

/// One scan request: the card identifier as delivered by the reader, and the
/// group the scan targets.
pub struct ScanRequest {
    pub rfid: String,
    pub group_id: i64,
}

/// How the store classifies a card: administrators are checked first, then
/// users; the precedence is deliberate policy for the (anomalous) case of a
/// card valid in both rosters.
pub open spec fn classify_of(s: Store, card: Seq<char>) -> CardClass {
    if s.is_admin_card(card) {
        CardClass::Admin(s.admin_for_card(card).id)
    } else if s.is_user_card(card) {
        CardClass::Member(s.user_for_card(card).id)
    } else {
        CardClass::Unknown
    }
}

/// The outcome a scan of `card` against `group_id` resolves to, as a pure
/// function of the store snapshot.
pub open spec fn scan_outcome_of(s: Store, card: Seq<char>, group_id: i64) -> ScanOutcome {
    decide_spec(
        classify_of(s, card),
        s.is_user_card(card) && s.is_user_in_group(s.user_for_card(card).id, group_id),
        if s.has_open_session(group_id) {
            Some(s.open_session_of(group_id).id)
        } else {
            None::<i64>
        },
        s.is_user_card(card) && s.has_open_session(group_id) && s.has_mark(
            s.user_for_card(card).id,
            s.open_session_of(group_id).id,
        ),
    )
}

/// The complete transition relation of one scan: the outcome is determined by
/// the pre state, the scan is always logged, the rosters never change, and
/// the sessions and marks change exactly as the outcome says.
pub open spec fn scan_rel(
    pre: Store,
    post: Store,
    card: Seq<char>,
    group_id: i64,
    now: i64,
    outcome: ScanOutcome,
) -> bool {
    &&& outcome == scan_outcome_of(pre, card, group_id)
    &&& same_identity(pre, post)
    &&& log_appended(pre, post, card, now)
    &&& match outcome {
        ScanOutcome::SessionStarted => {
            &&& post.sessions@ == pre.sessions@.push(
                Session {
                    id: pre.next_session_id,
                    group_id,
                    created_by: pre.admin_for_card(card).id,
                    start_time: now,
                    end_time: None::<i64>,
                },
            )
            &&& post.next_session_id == pre.next_session_id + 1
            &&& same_attendance(pre, post)
        },
        ScanOutcome::SessionEnded => {
            &&& post.sessions@ == pre.sessions@.update(
                pre.open_session_index(group_id),
                Session { end_time: Some(now), ..pre.open_session_of(group_id) },
            )
            &&& post.next_session_id == pre.next_session_id
            &&& same_attendance(pre, post)
        },
        ScanOutcome::AttendanceMarked => {
            &&& same_sessions(pre, post)
            &&& post.attendance@ == pre.attendance@.push(
                Attendance {
                    id: pre.next_attendance_id,
                    user_id: pre.user_for_card(card).id,
                    session_id: pre.open_session_of(group_id).id,
                },
            )
            &&& post.next_attendance_id == pre.next_attendance_id + 1
        },
        _ => same_sessions(pre, post) && same_attendance(pre, post),
    }
}

/// Two stores that agree on rosters, sessions and marks (they may differ in
/// the scan log) resolve every classification question alike.
proof fn lemma_reads_agree(pre: Store, post: Store, card: Seq<char>, group_id: i64)
    requires
        pre.wf(),
        same_identity(pre, post),
        same_sessions(pre, post),
        same_attendance(pre, post),
    ensures
        post.is_admin_card(card) == pre.is_admin_card(card),
        pre.is_admin_card(card) ==> post.admin_for_card(card) == pre.admin_for_card(card),
        post.is_user_card(card) == pre.is_user_card(card),
        pre.is_user_card(card) ==> post.user_for_card(card) == pre.user_for_card(card),
        forall|u: i64, g: i64|
            #[trigger] post.is_user_in_group(u, g) == pre.is_user_in_group(u, g),
        post.has_open_session(group_id) == pre.has_open_session(group_id),
        pre.has_open_session(group_id) ==> post.open_session_index(group_id)
            == pre.open_session_index(group_id) && post.open_session_of(group_id)
            == pre.open_session_of(group_id),
        forall|u: i64, s: i64| #[trigger] post.has_mark(u, s) == pre.has_mark(u, s),
        classify_of(post, card) == classify_of(pre, card),
{
    crate::store::lemma_identity_reads_agree(pre, post, card);
    crate::store::lemma_session_reads_agree(pre, post, group_id);
    crate::store::lemma_mark_reads_agree(pre, post);
}

/// Classifies a card against the rosters: administrators first, then users.
pub fn classify_card(store: &Store, card: &String) -> (r: CardClass)
    requires
        store.wf(),
    ensures
        r == classify_of(*store, card@),
{
    match store.find_admin_by_card(card) {
        Some(id) => CardClass::Admin(id),
        None => match store.find_user_by_card(card) {
            Some(id) => CardClass::Member(id),
            None => CardClass::Unknown,
        },
    }
}

/// Resolves one scan at the given instant: logs the attempt, classifies the
/// card, and applies the transition the outcome names. The whole step is one
/// atomic transition of the store, which is what the serialized transaction
/// of a persistent deployment must provide.
pub fn scan_at(store: &mut Store, card: &String, group_id: i64, now: i64) -> (r: ScanOutcome)
    requires
        old(store).wf(),
        old(store).has_capacity(),
    ensures
        final(store).wf(),
        scan_rel(*old(store), *final(store), card@, group_id, now, r),
{
    let ghost pre = *old(store);
    store.append_scan_log(card, now);
    let ghost logged = *store;
    proof {
        lemma_reads_agree(pre, logged, card@, group_id);
    }
    match classify_card(store, card) {
        CardClass::Admin(admin_id) => {
            match store.find_open_session(group_id) {
                Some(session_id) => {
                    proof {
                        let k = logged.open_session_index(group_id);
                        assert(logged.has_open_session_id(session_id)) by {
                            assert(logged.sessions@[k].id == session_id
                                && logged.sessions@[k].end_time is None);
                        }
                    }
                    store.close_session(session_id, now);
                    proof {
                        let k = logged.open_session_index(group_id);
                        let k2 = logged.session_index_of(session_id);
                        assert(logged.sessions@[k].id == session_id);
                        assert(0 <= k2 < logged.sessions@.len() && logged.sessions@[k2].id
                            == session_id);
                        assert(k == k2);
                    }
                    ScanOutcome::SessionEnded
                },
                None => {
                    store.open_session(group_id, admin_id, now);
                    ScanOutcome::SessionStarted
                },
            }
        },
        CardClass::Member(user_id) => {
            if !store.is_member(user_id, group_id) {
                ScanOutcome::Forbidden
            } else {
                match store.find_open_session(group_id) {
                    None => ScanOutcome::NoActiveSession,
                    Some(session_id) => {
                        if store.has_attendance(user_id, session_id) {
                            ScanOutcome::AlreadyMarked
                        } else {
                            store.mark_attendance(user_id, session_id);
                            ScanOutcome::AttendanceMarked
                        }
                    },
                }
            }
        },
        CardClass::Unknown => ScanOutcome::Unrecognized,
    }
}

/// Resolves one scan request at the current time.
pub fn scan(store: &mut Store, req: &ScanRequest) -> (r: ScanOutcome)
    requires
        old(store).wf(),
        old(store).has_capacity(),
    ensures
        final(store).wf(),
        exists|t: i64| scan_rel(*old(store), *final(store), req.rfid@, req.group_id, t, r),
        r == scan_outcome_of(*old(store), req.rfid@, req.group_id),
{
    let now = crate::clock::now_timestamp();
    scan_at(store, &req.rfid, req.group_id, now)
}

} // verus!
