//! What the engine hands to the external ledger.
//!
//! The ledger is an opaque asynchronous payment primitive: the library only
//! builds the transfer request and interprets the result; performing the
//! suspending call is the host's job. The memo tags each transfer with its
//! operation context, for the ledger's deduplication; the engine never
//! reads it back.

use vstd::prelude::*;
use vstd::utf8::is_ascii_chars;

use crate::account::AccountId;
use crate::codec::ascii_bytes;
use crate::codec::dec_digits;
use crate::codec::push_dec;
use crate::codec::str_ascii_bytes;

verus! {

/// The fixed per-transfer fee the ledger charges, in ledger-native units.
pub const LEDGER_FEE: u64 = 10_000;

/// A transfer request for the external ledger.
pub struct TransferArgs {
    pub to: AccountId,
    pub amount: u128,
    pub fee: u64,
    pub memo: Vec<u8>,
    pub from_subaccount: Option<Vec<u8>>,
    pub created_at_time: Option<u64>,
}

/// The memo of a ticket purchase: the event identifier's bytes.
pub open spec fn purchase_memo(event_id: Seq<char>) -> Seq<u8> {
    ascii_bytes(event_id)
}

/// The memo of a resale payment: `resale-` followed by the decimal
/// ticket number.
pub open spec fn resale_memo(ticket_id: u64) -> Seq<u8> {
    ascii_bytes("resale-"@) + dec_digits(ticket_id as nat)
}

/// The memo of a withdrawal payout: `withdraw-` followed by the event
/// identifier's bytes.
pub open spec fn withdraw_memo(event_id: Seq<char>) -> Seq<u8> {
    ascii_bytes("withdraw-"@) + ascii_bytes(event_id)
}

/// Builds the resale memo bytes.
pub fn resale_memo_bytes(ticket_id: u64) -> (r: Vec<u8>)
    ensures
        r@ == resale_memo(ticket_id),
{
    proof {
        reveal_strlit("resale-");
        assert(is_ascii_chars("resale-"@));
    }
    let mut v = str_ascii_bytes("resale-");
    push_dec(&mut v, ticket_id);
    v
}

/// Builds the withdrawal memo bytes.
pub fn withdraw_memo_bytes(event_id: &String) -> (r: Vec<u8>)
    requires
        is_ascii_chars(event_id@),
    ensures
        r@ == withdraw_memo(event_id@),
{
    proof {
        reveal_strlit("withdraw-");
        assert(is_ascii_chars("withdraw-"@));
    }
    let mut v = str_ascii_bytes("withdraw-");
    let mut tail = str_ascii_bytes(event_id.as_str());
    v.append(&mut tail);
    v
}

} // verus!
