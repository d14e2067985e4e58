//! The closed error taxonomy of the marketplace.
//!
//! Every operation returns its failure as an explicit value; nothing is
//! swallowed or retried. Payment failures wrap the ledger's own error kinds
//! one to one. Translating an error to display text happens only at the
//! service boundary, outside this library.

use vstd::prelude::*;

verus! {

/// The error kinds the external ledger reports for a transfer.
/// Mirrors the ledger's wire-level error variants one to one; amounts and
/// block indexes are ledger-native non-negative integers.
#[derive(Debug)]
pub enum TransferError {
    BadFee { expected_fee: u128 },
    InsufficientFunds { balance: u128 },
    TxTooOld { allowed_window_nanos: u128 },
    TxDuplicate { duplicate_of: u128 },
    TxCreatedInFuture,
    Other { error_message: String },
}

/// Why a marketplace operation was refused.
#[derive(Debug)]
pub enum Error {
    /// Event name is empty or longer than the allowed maximum.
    InvalidName,
    /// Event date is not strictly in the future.
    DateNotFuture,
    /// An event must have at least one ticket.
    NoTickets,
    /// The event has a whitelist and the buyer is not on it.
    NotWhitelisted,
    /// The caller does not own the ticket.
    NotTicketOwner,
    /// Only the event's organizer may withdraw its funds.
    NotOrganizer,
    /// Every ticket of the event is sold or reserved.
    SoldOut,
    /// The asked resale price exceeds the event's resale cap.
    PriceExceedsCap { max_price: u128 },
    /// No event with the given identifier.
    EventNotFound,
    /// An event with the freshly derived identifier already exists, so
    /// nothing was created; events are never replaced.
    DuplicateEventId,
    /// No ticket with the given identifier.
    TicketNotFound,
    /// The withdrawal asks for more than the collected funds.
    InsufficientFunds,
    /// The ticket already has a resale payment pending.
    TransferInFlight,
    /// Rejected at the persistence boundary: the restored event record
    /// violates the event invariant.
    InvalidEvent,
    /// Rejected at the persistence boundary: the restored ticket record
    /// violates the ticket invariant.
    InvalidTicket,
    /// The ledger refused the payment; the reservation was rolled back.
    Payment(TransferError),
}

} // verus!
