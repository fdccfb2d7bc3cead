//! The laws of the scan resolver, stated over the scan transition relation
//! and proved for every store, card and instant: the two global invariants
//! are preserved, each branch of the decision table does exactly what it
//! says, and two scans racing for the same group or the same (user, session)
//! pair serialize into exactly one session or one mark.

use vstd::prelude::*;

use crate::outcome::ScanOutcome;
use crate::resolver::scan_rel;
use crate::store::{
    lemma_identity_reads_agree, lemma_session_reads_agree, log_appended, same_attendance,
    same_sessions, session_is_open_for, Store,
};

verus! {

/// Law: a scan, whatever its outcome, keeps the store well formed.
pub proof fn lemma_scan_preserves_wf(
    pre: Store,
    post: Store,
    card: Seq<char>,
    group_id: i64,
    now: i64,
    outcome: ScanOutcome,
)
    requires
        pre.wf(),
        scan_rel(pre, post, card, group_id, now, outcome),
    ensures
        post.wf(),
{
    match outcome {
        ScanOutcome::SessionStarted => {
            let old_len = pre.sessions@.len() as int;
            assert(!pre.has_open_session(group_id));
            assert forall|i: int, j: int|
                #![trigger post.sessions@[i], post.sessions@[j]]
                0 <= i < post.sessions@.len() && 0 <= j < post.sessions@.len() && i != j
                    && post.sessions@[i].end_time is None && post.sessions@[j].end_time
                    is None implies post.sessions@[i].group_id != post.sessions@[j].group_id by {
                if i == old_len && 0 <= j < old_len {
                    if post.sessions@[j].group_id == group_id {
                        assert(session_is_open_for(pre.sessions@[j], group_id));
                        assert(pre.has_open_session(group_id));
                    }
                } else if j == old_len && 0 <= i < old_len {
                    if post.sessions@[i].group_id == group_id {
                        assert(session_is_open_for(pre.sessions@[i], group_id));
                        assert(pre.has_open_session(group_id));
                    }
                }
            }
        },
        ScanOutcome::SessionEnded => {
            let k = pre.open_session_index(group_id);
            assert(pre.has_open_session(group_id));
            assert(0 <= k < pre.sessions@.len() && session_is_open_for(
                pre.sessions@[k],
                group_id,
            ));
            assert forall|i: int, j: int|
                #![trigger post.sessions@[i], post.sessions@[j]]
                0 <= i < post.sessions@.len() && 0 <= j < post.sessions@.len() && i != j
                    && post.sessions@[i].end_time is None && post.sessions@[j].end_time
                    is None implies post.sessions@[i].group_id != post.sessions@[j].group_id by {
                assert(i != k && j != k);
                assert(post.sessions@[i] == pre.sessions@[i]);
                assert(post.sessions@[j] == pre.sessions@[j]);
            }
        },
        ScanOutcome::AttendanceMarked => {
            let old_len = pre.attendance@.len() as int;
            let u = pre.user_for_card(card).id;
            let sid = pre.open_session_of(group_id).id;
            assert(!pre.has_mark(u, sid));
            assert forall|i: int, j: int|
                #![trigger post.attendance@[i], post.attendance@[j]]
                0 <= i < post.attendance@.len() && 0 <= j < post.attendance@.len() && i
                    != j implies !(post.attendance@[i].user_id == post.attendance@[j].user_id
                && post.attendance@[i].session_id == post.attendance@[j].session_id) by {
                if i == old_len && 0 <= j < old_len {
                    if post.attendance@[j].user_id == u && post.attendance@[j].session_id == sid {
                        assert(pre.has_mark(u, sid));
                    }
                } else if j == old_len && 0 <= i < old_len {
                    if post.attendance@[i].user_id == u && post.attendance@[i].session_id == sid {
                        assert(pre.has_mark(u, sid));
                    }
                }
            }
        },
        _ => {},
    }
}

/// Law: after any scan, every group still has at most one open session.
pub proof fn lemma_scan_keeps_one_open_session(
    pre: Store,
    post: Store,
    card: Seq<char>,
    group_id: i64,
    now: i64,
    outcome: ScanOutcome,
)
    requires
        pre.wf(),
        scan_rel(pre, post, card, group_id, now, outcome),
    ensures
        post.one_open_session_per_group(),
{
    lemma_scan_preserves_wf(pre, post, card, group_id, now, outcome);
}

/// Law: after any scan, every (user, session) pair still has at most one
/// attendance mark.
pub proof fn lemma_scan_keeps_one_mark_per_pair(
    pre: Store,
    post: Store,
    card: Seq<char>,
    group_id: i64,
    now: i64,
    outcome: ScanOutcome,
)
    requires
        pre.wf(),
        scan_rel(pre, post, card, group_id, now, outcome),
    ensures
        post.one_mark_per_user_session(),
{
    lemma_scan_preserves_wf(pre, post, card, group_id, now, outcome);
}

/// Law: an administrator's scan against a group with no open session always
/// starts a session — a single new open session owned by that group, created
/// by that administrator, stamped with the scan's instant; the sessions that
/// existed before are untouched.
pub proof fn lemma_admin_scan_starts_session(
    pre: Store,
    post: Store,
    card: Seq<char>,
    group_id: i64,
    now: i64,
    outcome: ScanOutcome,
)
    requires
        pre.wf(),
        pre.is_admin_card(card),
        !pre.has_open_session(group_id),
        scan_rel(pre, post, card, group_id, now, outcome),
    ensures
        outcome == ScanOutcome::SessionStarted,
        post.sessions@.len() == pre.sessions@.len() + 1,
        post.sessions@.last().group_id == group_id,
        post.sessions@.last().end_time is None,
        post.sessions@.last().created_by == pre.admin_for_card(card).id,
        post.sessions@.last().start_time == now,
        post.has_open_session(group_id),
        forall|i: int|
            0 <= i < pre.sessions@.len() ==> post.sessions@[i] == pre.sessions@[i],
        same_attendance(pre, post),
{
    assert(session_is_open_for(post.sessions@[pre.sessions@.len() as int], group_id));
}

/// Law: an administrator's scan against a group with an open session always
/// ends it — that session's end time becomes the scan's instant, no new
/// session is created, every other session is untouched, and the group is
/// left with no open session.
pub proof fn lemma_admin_scan_ends_session(
    pre: Store,
    post: Store,
    card: Seq<char>,
    group_id: i64,
    now: i64,
    outcome: ScanOutcome,
)
    requires
        pre.wf(),
        pre.is_admin_card(card),
        pre.has_open_session(group_id),
        scan_rel(pre, post, card, group_id, now, outcome),
    ensures
        outcome == ScanOutcome::SessionEnded,
        post.sessions@.len() == pre.sessions@.len(),
        post.sessions@[pre.open_session_index(group_id)].end_time == Some(now),
        post.sessions@[pre.open_session_index(group_id)].id == pre.open_session_of(group_id).id,
        forall|i: int|
            0 <= i < pre.sessions@.len() && i != pre.open_session_index(group_id)
                ==> post.sessions@[i] == pre.sessions@[i],
        !post.has_open_session(group_id),
        same_attendance(pre, post),
{
    let k = pre.open_session_index(group_id);
    assert(0 <= k < pre.sessions@.len() && session_is_open_for(pre.sessions@[k], group_id));
    if post.has_open_session(group_id) {
        let j = post.open_session_index(group_id);
        assert(session_is_open_for(post.sessions@[j], group_id));
        assert(j != k);
        assert(session_is_open_for(pre.sessions@[j], group_id));
        assert(false);
    }
}

/// Law: a member's scan, with membership in the group, an open session and no
/// prior mark, always records attendance — exactly one new mark, for that
/// member in that session; the marks that existed before are untouched, and
/// no session changes.
pub proof fn lemma_member_scan_marks_attendance(
    pre: Store,
    post: Store,
    card: Seq<char>,
    group_id: i64,
    now: i64,
    outcome: ScanOutcome,
)
    requires
        pre.wf(),
        !pre.is_admin_card(card),
        pre.is_user_card(card),
        pre.is_user_in_group(pre.user_for_card(card).id, group_id),
        pre.has_open_session(group_id),
        !pre.has_mark(pre.user_for_card(card).id, pre.open_session_of(group_id).id),
        scan_rel(pre, post, card, group_id, now, outcome),
    ensures
        outcome == ScanOutcome::AttendanceMarked,
        post.attendance@.len() == pre.attendance@.len() + 1,
        post.attendance@.last().user_id == pre.user_for_card(card).id,
        post.attendance@.last().session_id == pre.open_session_of(group_id).id,
        post.has_mark(pre.user_for_card(card).id, pre.open_session_of(group_id).id),
        forall|i: int|
            0 <= i < pre.attendance@.len() ==> post.attendance@[i] == pre.attendance@[i],
        same_sessions(pre, post),
{
    let n = pre.attendance@.len() as int;
    assert(post.attendance@[n].user_id == pre.user_for_card(card).id && post.attendance@[
        n
    ].session_id == pre.open_session_of(group_id).id);
}

/// Law: a member's scan, with membership in the group and an open session the
/// member has already marked, is answered with the conflict outcome and
/// creates no new row — repeating a scan is idempotent.
pub proof fn lemma_repeat_scan_already_marked(
    pre: Store,
    post: Store,
    card: Seq<char>,
    group_id: i64,
    now: i64,
    outcome: ScanOutcome,
)
    requires
        pre.wf(),
        !pre.is_admin_card(card),
        pre.is_user_card(card),
        pre.is_user_in_group(pre.user_for_card(card).id, group_id),
        pre.has_open_session(group_id),
        pre.has_mark(pre.user_for_card(card).id, pre.open_session_of(group_id).id),
        scan_rel(pre, post, card, group_id, now, outcome),
    ensures
        outcome == ScanOutcome::AlreadyMarked,
        same_attendance(pre, post),
        same_sessions(pre, post),
{
}

/// Law: a member's scan without membership in the group is forbidden,
/// whatever the session state, and neither the sessions nor the marks change.
pub proof fn lemma_nonmember_scan_forbidden(
    pre: Store,
    post: Store,
    card: Seq<char>,
    group_id: i64,
    now: i64,
    outcome: ScanOutcome,
)
    requires
        pre.wf(),
        !pre.is_admin_card(card),
        pre.is_user_card(card),
        !pre.is_user_in_group(pre.user_for_card(card).id, group_id),
        scan_rel(pre, post, card, group_id, now, outcome),
    ensures
        outcome == ScanOutcome::Forbidden,
        same_sessions(pre, post),
        same_attendance(pre, post),
{
}

/// Law: a card matching neither roster is unrecognized, nothing changes —
/// and the scan log entry is still recorded.
pub proof fn lemma_unknown_card_logged(
    pre: Store,
    post: Store,
    card: Seq<char>,
    group_id: i64,
    now: i64,
    outcome: ScanOutcome,
)
    requires
        pre.wf(),
        !pre.is_admin_card(card),
        !pre.is_user_card(card),
        scan_rel(pre, post, card, group_id, now, outcome),
    ensures
        outcome == ScanOutcome::Unrecognized,
        log_appended(pre, post, card, now),
        same_sessions(pre, post),
        same_attendance(pre, post),
{
}

/// Law: two administrator scans for the same group, serialized from a state
/// with no open session, create exactly one session — the first starts it,
/// the second ends it, and at every point the group has at most one open
/// session; never two open sessions.
pub proof fn lemma_racing_admin_scans_single_session(
    s0: Store,
    s1: Store,
    s2: Store,
    card1: Seq<char>,
    card2: Seq<char>,
    group_id: i64,
    t1: i64,
    t2: i64,
    o1: ScanOutcome,
    o2: ScanOutcome,
)
    requires
        s0.wf(),
        s0.is_admin_card(card1),
        s0.is_admin_card(card2),
        !s0.has_open_session(group_id),
        scan_rel(s0, s1, card1, group_id, t1, o1),
        scan_rel(s1, s2, card2, group_id, t2, o2),
    ensures
        o1 == ScanOutcome::SessionStarted,
        o2 == ScanOutcome::SessionEnded,
        s2.sessions@.len() == s0.sessions@.len() + 1,
        !s2.has_open_session(group_id),
        s0.one_open_session_per_group(),
        s1.one_open_session_per_group(),
        s2.one_open_session_per_group(),
{
    lemma_scan_preserves_wf(s0, s1, card1, group_id, t1, o1);
    lemma_admin_scan_starts_session(s0, s1, card1, group_id, t1, o1);
    lemma_identity_reads_agree(s0, s1, card2);
    lemma_scan_preserves_wf(s1, s2, card2, group_id, t2, o2);
    lemma_admin_scan_ends_session(s1, s2, card2, group_id, t2, o2);
}

/// Law: two member scans for the same member and group, serialized from a
/// state with an open session and no prior mark, create exactly one
/// attendance mark — the first records it, the second resolves as already
/// marked; never two marks.
pub proof fn lemma_racing_member_scans_single_mark(
    s0: Store,
    s1: Store,
    s2: Store,
    card: Seq<char>,
    group_id: i64,
    t1: i64,
    t2: i64,
    o1: ScanOutcome,
    o2: ScanOutcome,
)
    requires
        s0.wf(),
        !s0.is_admin_card(card),
        s0.is_user_card(card),
        s0.is_user_in_group(s0.user_for_card(card).id, group_id),
        s0.has_open_session(group_id),
        !s0.has_mark(s0.user_for_card(card).id, s0.open_session_of(group_id).id),
        scan_rel(s0, s1, card, group_id, t1, o1),
        scan_rel(s1, s2, card, group_id, t2, o2),
    ensures
        o1 == ScanOutcome::AttendanceMarked,
        o2 == ScanOutcome::AlreadyMarked,
        s2.attendance@.len() == s0.attendance@.len() + 1,
        s0.one_mark_per_user_session(),
        s1.one_mark_per_user_session(),
        s2.one_mark_per_user_session(),
{
    lemma_scan_preserves_wf(s0, s1, card, group_id, t1, o1);
    lemma_member_scan_marks_attendance(s0, s1, card, group_id, t1, o1);
    lemma_identity_reads_agree(s0, s1, card);
    lemma_session_reads_agree(s0, s1, group_id);
    lemma_scan_preserves_wf(s1, s2, card, group_id, t2, o2);
    lemma_repeat_scan_already_marked(s1, s2, card, group_id, t2, o2);
}

} // verus!
