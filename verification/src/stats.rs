//! Solve statistics: a single solve, a session of solves, and the store
//! of all sessions with its persistence codec.

pub mod codec;
pub mod session;
pub mod stat;
pub mod stats;
