//! Booking reconciliation for recorded work events: validation of booking
//! requests, the capacity ledger of an event, the day membership index, and
//! the decisions of the create and delete flows.

pub mod ident;
pub mod calendar;
pub mod amount;
pub mod ledger;
pub mod membership;
pub mod orchestrator;
pub mod laws;
pub mod payloads;
pub mod auth;
