//! Decision logic of an ordered, idempotent add-on installer.
//!
//! The crate holds no I/O. A driver performs the network and filesystem work
//! that [`pipeline::Pipeline`] asks for, one request at a time, and reports
//! back what happened; every decision between two requests is made and
//! verified here.

pub mod errors;
pub mod progress;
pub mod containment;
pub mod registry;
pub mod plan;
pub mod machine;
pub mod consistency;
pub mod pipeline;
pub mod guarantees;
