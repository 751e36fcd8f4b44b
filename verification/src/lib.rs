//! Cache orchestration for a gateway that serves catalog files out of a blob
//! relay.
//!
//! Every operation is a small state machine that never performs I/O itself:
//! it names the next call to make against a collaborator and, given the reply,
//! decides what happens next. The embedding program performs the calls.
//!
//! - [`entry`] and [`catalog`] hold the data the operations work on.
//! - [`protocol`] holds the calls, the replies and the shape of a step.
//! - [`populate`], [`download`], [`invalidate`] and [`backfill`] hold the
//!   operations.
//! - [`response`] holds what the request paths decide around them.
//! - [`store`] and [`world`] model the collaborators, and [`laws`] states
//!   what holds of the operations run against that model.

pub mod backfill;
pub mod catalog;
pub mod download;
pub mod entry;
pub mod invalidate;
pub mod laws;
pub mod populate;
pub mod protocol;
pub mod response;
pub mod store;
pub mod world;
