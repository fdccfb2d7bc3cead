//! Attendance tracking: groups, sessions and per-session attendance marks,
//! driven by proximity-card scans.
//!
//! The heart of the library is the scan resolver ([`resolver::scan_at`]): it
//! classifies a raw card identifier against the administrator and member
//! rosters, and either opens a session, closes a session, marks attendance or
//! rejects the scan, while every scan is recorded in an append-only log. Two
//! invariants are maintained at all times and proved as laws: a group has at
//! most one open session, and a member holds at most one attendance mark per
//! session.

mod clock;
pub mod laws;
pub mod model;
pub mod mutation;
pub mod outcome;
pub mod query;
pub mod resolver;
pub mod seq_facts;
pub mod store;
