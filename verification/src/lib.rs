//! Decision logic of the Ranger deployment orchestrator, with its contracts proved.
//!
//! The crate holds what the orchestrator decides and computes: which deployer
//! serves a request, in which order nodes and features are deployed, which part
//! of a scenario a participant may see, how deployment elements change status,
//! and when an event has triggered. The actors, gRPC clients and database access
//! that carry these decisions out live outside of this crate.

pub mod names;
pub mod model;
pub mod ledger;
pub mod distribution;
pub mod refs;
pub mod scenario;
pub mod entities;
pub mod role_filter;
pub mod text;
pub mod scheduler;
pub mod idmap;
pub mod websocket;
pub mod events;
pub mod ids;
pub mod checksum;
pub mod deployment;
pub mod nodes;
pub mod templater;
pub mod requests;
pub mod conditions;
pub mod event_plan;
pub mod utilities;
pub mod mailer;
pub mod manager;
