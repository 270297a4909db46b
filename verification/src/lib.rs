//! An in-memory snapshot of a directory tree, a pure path resolver over it,
//! and the control-protocol state machine of a small static content server.

pub mod control;
pub mod fs;
pub mod request;
pub mod supervisor;
