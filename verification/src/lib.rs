//! Verified core of a group moderation service for a messaging platform.
//!
//! The crate holds the rules of the service and no I/O: the per-group cleaning
//! state machine, the claim step of a bulk clear, the membership sweep, the
//! delivery plan of scheduled broadcasts and the decision of the stale-group
//! reaper. A caller performs the platform and store requests that these
//! functions hand out and reports back what happened.

pub mod status;
pub mod directory;
pub mod dispatch;
pub mod inbound;
pub mod platform;
pub mod reaper;
pub mod registry;
mod seq_facts;
pub mod state;
pub mod sweep;
