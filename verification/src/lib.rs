//! Transactional core of a decentralized event-ticketing marketplace.
//!
//! Organizers register events with a fixed ticket supply and price, buyers
//! purchase tickets by paying through an external value-transfer ledger,
//! ticket owners resell tickets under a price cap, and organizers withdraw
//! accumulated proceeds. Every money movement is delegated to the external
//! ledger, which runs asynchronously: an operation that pays must first
//! reserve the resource it consumes, then suspend for the payment, then
//! commit or roll the reservation back. The reservation and the
//! commit/rollback steps are synchronous and verified here; the host
//! performs the suspending ledger call between them.

pub mod account;
pub mod codec;
pub mod errors;
pub mod engine;
pub mod events;
pub mod laws;
pub mod ledger;
pub mod queries;
pub mod tickets;
