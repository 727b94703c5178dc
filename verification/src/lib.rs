//! Script-execution sessions.
//!
//! A session accepts untrusted script text, gives every submission an
//! identifier of its own and tracks each run from `Pending` through `Running`
//! to `Succeeded` or `Failed`. A finished run is rendered as one message in
//! which success and failure cannot be mistaken for each other.
//!
//! The session is a sequential state machine: every operation is one atomic
//! step. A caller that shares a session between tasks guards it with one lock
//! and performs each operation inside it.

pub mod formatter;
pub mod script;
pub mod session;
pub mod trace;
