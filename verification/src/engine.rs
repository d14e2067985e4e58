//! The four state-mutating operations and their reservation protocol.
//!
//! Every operation that checks a capacity or balance invariant and then
//! pays through the external ledger is split into three steps: a
//! synchronous `begin_*` that validates, authorizes and converts the
//! checked invariant into a held reservation; the suspending ledger call,
//! which the host performs with the `payment_args` the reservation builds;
//! and a synchronous `finish_*` that commits the reservation on payment
//! success or rolls it back on failure. No invariant is relied upon across
//! a suspension point without first becoming a reservation, which is what
//! closes the oversell and double-withdrawal races of the naive
//! check-await-mutate order.

use vstd::prelude::*;
use vstd::utf8::encode_utf8;
use vstd::utf8::is_ascii_chars;

use crate::account::AccountId;
use crate::account::bytes_in;
use crate::account::contains_account;
use crate::account::lemma_account_in_view;
use crate::codec::event_id_from_entropy;
use crate::codec::hex_of;
use crate::codec::lemma_hex_of_ascii;
use crate::codec::str_ascii_bytes;
use crate::errors::Error;
use crate::errors::TransferError;
use crate::events::Event;
use crate::events::EventModel;
use crate::events::EventStore;
use crate::events::ResaleMultiplier;
use crate::events::SaleReservation;
use crate::events::WithdrawReservation;
use crate::events::commit_sale_effect;
use crate::events::event_at;
use crate::events::event_idx;
use crate::events::has_event;
use crate::events::reserve_withdrawal_effect;
use crate::events::rollback_sale_effect;
use crate::events::rollback_withdrawal_effect;
use crate::events::sale_outstanding;
use crate::events::whitelist_view;
use crate::events::withdrawal_outstanding;
use crate::ledger::LEDGER_FEE;
use crate::ledger::TransferArgs;
use crate::ledger::purchase_memo;
use crate::ledger::resale_memo;
use crate::ledger::withdraw_memo;
use crate::tickets::MetadataModel;
use crate::tickets::Ticket;
use crate::tickets::TicketMetadata;
use crate::tickets::TicketModel;
use crate::tickets::TicketStore;
use crate::tickets::clear_in_flight_effect;
use crate::tickets::has_ticket;
use crate::tickets::mark_in_flight_effect;
use crate::tickets::ticket_at;
use crate::tickets::ticket_idx;
use crate::tickets::transfer_effect;

verus! {

/// Whether the buyer may purchase: the event is open, or the buyer is on
/// its whitelist.
pub open spec fn on_whitelist(m: EventModel, buyer: Seq<u8>) -> bool {
    match m.whitelist {
        None => true,
        Some(wl) => bytes_in(wl, buyer),
    }
}

/// The event an accepted `create_event` call stores: the given attributes
/// with both counters zeroed.
pub open spec fn created_event_model(
    id: Seq<char>,
    name: Seq<char>,
    date: u64,
    location: Seq<char>,
    organizer: Seq<u8>,
    ticket_price: u64,
    max_resale_multiplier: Option<ResaleMultiplier>,
    total_tickets: u64,
    whitelist: Option<Seq<Seq<u8>>>,
) -> EventModel {
    EventModel {
        id,
        name,
        date,
        location,
        organizer,
        ticket_price,
        max_resale_multiplier,
        total_tickets,
        tickets_sold: 0,
        funds_collected: 0,
        funds_withdrawn: 0,
        whitelist,
    }
}

/// Checks the arguments of an event creation: name of 1 to 100 bytes,
/// date strictly in the future, at least one ticket. The checks run in
/// this order, and the first failure decides the error.
pub fn validate_event_inputs(name: &String, date: u64, total_tickets: u64, now: u64) -> (r:
    Result<(), Error>)
    requires
        encode_utf8(name@).len() <= usize::MAX,
    ensures
        !(1 <= encode_utf8(name@).len() <= 100) ==> (r matches Err(e) && e
            == Error::InvalidName),
        1 <= encode_utf8(name@).len() <= 100 && date <= now ==> (r matches Err(e) && e
            == Error::DateNotFuture),
        1 <= encode_utf8(name@).len() <= 100 && date > now && total_tickets == 0 ==> (r
            matches Err(e) && e == Error::NoTickets),
        1 <= encode_utf8(name@).len() <= 100 && date > now && total_tickets >= 1 ==> r
            matches Ok(_),
{
    let len = name.as_str().len();
    if len < 1 || len > 100 {
        return Err(Error::InvalidName);
    }
    if date <= now {
        return Err(Error::DateNotFuture);
    }
    if total_tickets == 0 {
        return Err(Error::NoTickets);
    }
    Ok(())
}

/// Registers a new event. The identifier is derived from the given fresh
/// entropy (obtained by the host from its secure entropy source, whose
/// call suspends nothing that was checked here: no shared state is touched
/// before the insertion). The new event starts with zeroed counters. An
/// event is created once and never replaced: should the derived identifier
/// already be taken, the call is refused and nothing changes.
pub fn create_event(
    events: &mut EventStore,
    name: String,
    date: u64,
    location: String,
    ticket_price: u64,
    total_tickets: u64,
    max_resale_multiplier: Option<ResaleMultiplier>,
    whitelist: Option<Vec<AccountId>>,
    organizer: AccountId,
    now: u64,
    entropy: &Vec<u8>,
) -> (r: Result<String, Error>)
    requires
        old(events).wf(),
        entropy@.len() >= 16,
        encode_utf8(name@).len() <= usize::MAX,
        max_resale_multiplier matches Some(m) ==> m.wf(),
    ensures
        final(events).wf(),
        !(1 <= encode_utf8(name@).len() <= 100) ==> (r matches Err(e) && e
            == Error::InvalidName && final(events)@ == old(events)@),
        1 <= encode_utf8(name@).len() <= 100 && date <= now ==> (r matches Err(e) && e
            == Error::DateNotFuture && final(events)@ == old(events)@),
        1 <= encode_utf8(name@).len() <= 100 && date > now && total_tickets == 0 ==> (r
            matches Err(e) && e == Error::NoTickets && final(events)@ == old(events)@),
        1 <= encode_utf8(name@).len() <= 100 && date > now && total_tickets >= 1
            && has_event(old(events)@, hex_of(entropy@.take(16))) ==> (r matches Err(e) && e
            == Error::DuplicateEventId && final(events)@ == old(events)@),
        1 <= encode_utf8(name@).len() <= 100 && date > now && total_tickets >= 1
            && !has_event(old(events)@, hex_of(entropy@.take(16))) ==> (r matches Ok(id) && {
            let m = created_event_model(
                hex_of(entropy@.take(16)),
                name@,
                date,
                location@,
                organizer@,
                ticket_price,
                max_resale_multiplier,
                total_tickets,
                whitelist_view(&whitelist),
            );
            &&& id@ == hex_of(entropy@.take(16))
            &&& final(events)@ == old(events)@.push(m)
            &&& has_event(final(events)@, id@)
            &&& event_at(final(events)@, id@) == m
        }),
{
    match validate_event_inputs(&name, date, total_tickets, now) {
        Err(e) => Err(e),
        Ok(_) => {
            let id = event_id_from_entropy(entropy);
            proof {
                lemma_hex_of_ascii(entropy@.take(16));
            }
            if events.get(&id).is_some() {
                return Err(Error::DuplicateEventId);
            }
            let event = Event {
                id: id.clone(),
                name,
                date,
                location,
                organizer,
                ticket_price,
                max_resale_multiplier,
                total_tickets,
                tickets_sold: 0,
                funds_collected: 0,
                funds_withdrawn: 0,
                whitelist,
            };
            proof {
                assert(event@.funds_collected + event@.funds_withdrawn <= event@.tickets_sold
                    * event@.ticket_price);
                assert(event@.wf());
            }
            events.insert(event);
            Ok(id)
        },
    }
}

/// The synchronous first half of a ticket purchase: looks the event up,
/// checks the whitelist, and converts an available capacity unit into a
/// held reservation before any suspension. A second purchase arriving
/// while the payment is in flight sees the already-incremented
/// `tickets_sold`.
pub fn begin_purchase(events: &mut EventStore, event_id: &String, buyer: &AccountId) -> (r:
    Result<SaleReservation, Error>)
    requires
        old(events).wf(),
    ensures
        final(events).wf(),
        !has_event(old(events)@, event_id@) ==> (r matches Err(e) && e == Error::EventNotFound
            && final(events)@ == old(events)@),
        has_event(old(events)@, event_id@) && !on_whitelist(
            event_at(old(events)@, event_id@),
            buyer@,
        ) ==> (r matches Err(e) && e == Error::NotWhitelisted && final(events)@
            == old(events)@),
        has_event(old(events)@, event_id@) && on_whitelist(
            event_at(old(events)@, event_id@),
            buyer@,
        ) && event_at(old(events)@, event_id@).tickets_sold >= event_at(
            old(events)@,
            event_id@,
        ).total_tickets ==> (r matches Err(e) && e == Error::SoldOut && final(events)@
            == old(events)@),
        has_event(old(events)@, event_id@) && on_whitelist(
            event_at(old(events)@, event_id@),
            buyer@,
        ) && event_at(old(events)@, event_id@).tickets_sold < event_at(
            old(events)@,
            event_id@,
        ).total_tickets ==> (r matches Ok(tok) && {
            let m = event_at(old(events)@, event_id@);
            &&& tok.event_id@ == event_id@
            &&& tok.organizer@ == m.organizer
            &&& tok.price == m.ticket_price
            &&& tok.ticket_number == m.tickets_sold + 1
            &&& final(events)@ == old(events)@.update(
                event_idx(old(events)@, event_id@),
                crate::events::reserve_sale_effect(m),
            )
            &&& sale_outstanding(final(events)@, tok)
        }),
{
    let allowed = match events.get(event_id) {
        None => {
            return Err(Error::EventNotFound);
        },
        Some(ev) => {
            match &ev.whitelist {
                None => true,
                Some(wl) => {
                    let c = contains_account(wl, buyer);
                    proof {
                        lemma_account_in_view(wl@, buyer@);
                    }
                    c
                },
            }
        },
    };
    if !allowed {
        return Err(Error::NotWhitelisted);
    }
    events.reserve_sale(event_id)
}

/// The ticket a committed purchase mints: numbered from the count before
/// the reservation, owned by the buyer, with the mint as the first and
/// only history entry.
pub open spec fn minted_ticket_model(tok: SaleReservation, owner: Seq<u8>, now: u64)
    -> TicketModel {
    TicketModel {
        id: tok.ticket_number,
        owner,
        metadata: MetadataModel {
            event_id: tok.event_id@,
            seat: None,
            tier: None,
            image_url: None,
        },
        original_price: tok.price,
        transfer_history: seq![(now, owner)],
        in_flight: false,
    }
}

/// The synchronous second half of a ticket purchase, run after the ledger
/// call resolved. On success the reservation commits: the ticket is
/// minted and the price joins the collected funds. On failure the
/// reservation rolls back: the capacity unit is freed, no ticket is
/// minted, no funds are recorded, and the ledger's error is surfaced.
pub fn finish_purchase(
    events: &mut EventStore,
    tickets: &mut TicketStore,
    reservation: SaleReservation,
    buyer: AccountId,
    now: u64,
    outcome: Result<u128, TransferError>,
) -> (r: Result<u64, Error>)
    requires
        old(events).wf(),
        old(tickets).wf(),
        sale_outstanding(old(events)@, reservation),
    ensures
        final(events).wf(),
        final(tickets).wf(),
        outcome matches Ok(_) ==> (r matches Ok(n) && n == reservation.ticket_number && {
            let t = minted_ticket_model(reservation, buyer@, now);
            &&& final(events)@ == old(events)@.update(
                event_idx(old(events)@, reservation.event_id@),
                commit_sale_effect(event_at(old(events)@, reservation.event_id@)),
            )
            &&& has_ticket(old(tickets)@, reservation.event_id@, reservation.ticket_number)
                ==> final(tickets)@ == old(tickets)@.update(
                ticket_idx(old(tickets)@, reservation.event_id@, reservation.ticket_number),
                t,
            )
            &&& !has_ticket(old(tickets)@, reservation.event_id@, reservation.ticket_number)
                ==> final(tickets)@ == old(tickets)@.push(t)
        }),
        outcome matches Err(e) ==> (r matches Err(err) && err == Error::Payment(e)
            && final(events)@ == old(events)@.update(
            event_idx(old(events)@, reservation.event_id@),
            rollback_sale_effect(event_at(old(events)@, reservation.event_id@)),
        ) && final(tickets)@ == old(tickets)@),
{
    let ghost owner_bytes = buyer@;
    match outcome {
        Ok(_block_height) => {
            events.commit_sale(&reservation);
            let metadata = TicketMetadata {
                event_id: reservation.event_id.clone(),
                seat: None,
                tier: None,
                image_url: None,
            };
            let mut history: Vec<(u64, AccountId)> = Vec::new();
            history.push((now, buyer.clone()));
            let ticket = Ticket {
                id: reservation.ticket_number,
                owner: buyer,
                metadata,
                original_price: reservation.price,
                transfer_history: history,
                in_flight: false,
            };
            proof {
                assert(crate::tickets::history_view(ticket.transfer_history@) =~= seq![
                    (now, owner_bytes),
                ]);
                assert(ticket@ =~= minted_ticket_model(reservation, owner_bytes, now));
            }
            let number = ticket.id;
            tickets.insert(ticket);
            Ok(number)
        },
        Err(e) => {
            events.rollback_sale(&reservation);
            Err(Error::Payment(e))
        },
    }
}

/// The resale price cap: the original price times the multiplier,
/// rounded to the nearest whole unit, halves away from zero.
pub open spec fn resale_cap_spec(original_price: u64, m: ResaleMultiplier) -> int {
    (2 * original_price * m.num + m.den) / (2 * m.den)
}

/// Computes the resale price cap exactly, in integer arithmetic.
pub fn resale_cap(original_price: u64, m: &ResaleMultiplier) -> (r: u128)
    requires
        m.wf(),
    ensures
        r == resale_cap_spec(original_price, *m),
{
    proof {
        assert((original_price as int) * (m.num as int) <= 0xffff_ffff_ffff_ffffu64
            * 0xffff_ffff_ffff_ffffu64) by (nonlinear_arith)
            requires
                original_price <= 0xffff_ffff_ffff_ffffu64,
                m.num <= 0xffff_ffff_ffff_ffffu64,
        ;
    }
    let p: u128 = (original_price as u128) * (m.num as u128);
    let den: u128 = m.den as u128;
    let q = p / den;
    let rem = p % den;
    proof {
        vstd::arithmetic::div_mod::lemma_fundamental_div_mod(p as int, den as int);
        vstd::arithmetic::div_mod::lemma_div_nonincreasing(p as int, den as int);
    }
    let r = if 2 * rem >= den {
        q + 1
    } else {
        q
    };
    proof {
        let pi = p as int;
        let di = den as int;
        let qi = q as int;
        let ri = rem as int;
        let ind: int = if 2 * ri >= di {
            1
        } else {
            0
        };
        assert(2 * pi + di == (qi + ind) * (2 * di) + (2 * ri + di - 2 * di * ind))
            by (nonlinear_arith)
            requires
                pi == di * qi + ri,
        ;
        assert(0 <= 2 * ri + di - 2 * di * ind < 2 * di);
        vstd::arithmetic::div_mod::lemma_fundamental_div_mod_converse(
            2 * pi + di,
            2 * di,
            qi + ind,
            2 * ri + di - 2 * di * ind,
        );
        assert(2 * (original_price as int) * (m.num as int) == 2 * pi) by (nonlinear_arith)
            requires
                pi == (original_price as int) * (m.num as int),
        ;
    }
    r
}

/// The planned completion of a ticket transfer: either a gift, finished
/// at once, or a resale whose payment to the seller is in flight.
pub struct TransferPlan {
    pub event_id: String,
    pub ticket_id: u64,
    pub seller: AccountId,
    pub payment: Option<u128>,
}

/// What holds of the ticket store while a transfer plan is outstanding:
/// the ticket exists, and a paid plan holds the ticket's in-flight mark.
pub open spec fn plan_outstanding(s: Seq<TicketModel>, plan: TransferPlan) -> bool {
    &&& has_ticket(s, plan.event_id@, plan.ticket_id)
    &&& (plan.payment matches Some(_) ==> ticket_at(s, plan.event_id@, plan.ticket_id).in_flight)
}

/// The full case analysis of `begin_transfer`: which inputs are rejected
/// with which error, and that a paid plan marks the ticket in flight while
/// a gift changes nothing yet.
pub open spec fn begin_transfer_spec(
    pre: Seq<TicketModel>,
    events: Seq<EventModel>,
    event_id: Seq<char>,
    ticket_id: u64,
    sender: Seq<u8>,
    sale_price: Option<u128>,
    post: Seq<TicketModel>,
    r: Result<TransferPlan, Error>,
) -> bool {
    if !has_ticket(pre, event_id, ticket_id) {
        r matches Err(e) && e == Error::TicketNotFound && post == pre
    } else {
        let t = ticket_at(pre, event_id, ticket_id);
        if t.owner != sender {
            r matches Err(e) && e == Error::NotTicketOwner && post == pre
        } else if !has_event(events, event_id) {
            r matches Err(e) && e == Error::EventNotFound && post == pre
        } else if t.in_flight {
            r matches Err(e) && e == Error::TransferInFlight && post == pre
        } else {
            match (sale_price, event_at(events, event_id).max_resale_multiplier) {
                (None, _) => r matches Ok(plan) && plan.event_id@ == event_id
                    && plan.ticket_id == ticket_id && plan.seller@ == sender
                    && plan.payment is None && post == pre,
                (Some(p), None) => paid_plan_agreed(pre, event_id, ticket_id, sender, p, post, r),
                (Some(p), Some(mu)) => {
                    if p > resale_cap_spec(t.original_price, mu) {
                        r matches Err(e) && e == (Error::PriceExceedsCap {
                            max_price: resale_cap_spec(t.original_price, mu) as u128,
                        }) && post == pre
                    } else {
                        paid_plan_agreed(pre, event_id, ticket_id, sender, p, post, r)
                    }
                },
            }
        }
    }
}

/// An accepted resale: the plan carries the agreed price and the ticket
/// is marked in flight until the payment resolves.
pub open spec fn paid_plan_agreed(
    pre: Seq<TicketModel>,
    event_id: Seq<char>,
    ticket_id: u64,
    sender: Seq<u8>,
    p: u128,
    post: Seq<TicketModel>,
    r: Result<TransferPlan, Error>,
) -> bool {
    r matches Ok(plan) && {
        &&& plan.event_id@ == event_id
        &&& plan.ticket_id == ticket_id
        &&& plan.seller@ == sender
        &&& plan.payment == Some(p)
        &&& post == pre.update(
            ticket_idx(pre, event_id, ticket_id),
            mark_in_flight_effect(ticket_at(pre, event_id, ticket_id)),
        )
        &&& plan_outstanding(post, plan)
    }
}

/// The synchronous first half of a ticket transfer: checks ownership and,
/// for a resale, the price cap, then marks the ticket in flight before
/// the payment to the seller suspends. A gift transfer reserves nothing;
/// the caller completes it at once with `finish_transfer`.
pub fn begin_transfer(
    tickets: &mut TicketStore,
    events: &EventStore,
    event_id: &String,
    ticket_id: u64,
    sender: &AccountId,
    sale_price: Option<u128>,
) -> (r: Result<TransferPlan, Error>)
    requires
        old(tickets).wf(),
        events.wf(),
    ensures
        final(tickets).wf(),
        begin_transfer_spec(
            old(tickets)@,
            events@,
            event_id@,
            ticket_id,
            sender@,
            sale_price,
            final(tickets)@,
            r,
        ),
        has_ticket(old(tickets)@, event_id@, ticket_id) && (sale_price matches Some(p)) && (
        event_at(events@, event_id@).max_resale_multiplier matches Some(mu)) && (r matches Ok(
            _,
        )) ==> (sale_price matches Some(p) && event_at(
            events@,
            event_id@,
        ).max_resale_multiplier matches Some(mu) && p <= resale_cap_spec(
            ticket_at(old(tickets)@, event_id@, ticket_id).original_price,
            mu,
        )),
{
    let (original_price, flight) = match tickets.get(event_id, ticket_id) {
        None => {
            return Err(Error::TicketNotFound);
        },
        Some(t) => {
            if t.owner != *sender {
                return Err(Error::NotTicketOwner);
            }
            (t.original_price, t.in_flight)
        },
    };
    let mult = match events.get(event_id) {
        None => {
            return Err(Error::EventNotFound);
        },
        Some(ev) => ev.max_resale_multiplier,
    };
    if flight {
        return Err(Error::TransferInFlight);
    }
    match sale_price {
        None => Ok(
            TransferPlan {
                event_id: event_id.clone(),
                ticket_id,
                seller: sender.clone(),
                payment: None,
            },
        ),
        Some(p) => {
            match &mult {
                Some(mu) => {
                    let cap = resale_cap(original_price, mu);
                    if p > cap {
                        return Err(Error::PriceExceedsCap { max_price: cap });
                    }
                },
                None => {},
            }
            let ghost pre = tickets@;
            tickets.mark_in_flight(event_id, ticket_id);
            proof {
                crate::tickets::lemma_ticket_found(
                    tickets@,
                    event_id@,
                    ticket_id,
                    ticket_idx(pre, event_id@, ticket_id),
                );
            }
            Ok(
                TransferPlan {
                    event_id: event_id.clone(),
                    ticket_id,
                    seller: sender.clone(),
                    payment: Some(p),
                },
            )
        },
    }
}

/// The synchronous second half of a ticket transfer. A gift, or a resale
/// whose payment the ledger approved, updates the owner and appends to
/// the transfer history in one step. A refused payment leaves ownership
/// and history exactly as they were and only clears the in-flight mark.
pub fn finish_transfer(
    tickets: &mut TicketStore,
    plan: TransferPlan,
    new_owner: AccountId,
    now: u64,
    outcome: Option<Result<u128, TransferError>>,
) -> (r: Result<(), Error>)
    requires
        old(tickets).wf(),
        plan_outstanding(old(tickets)@, plan),
        (outcome matches Some(_)) <==> (plan.payment matches Some(_)),
    ensures
        final(tickets).wf(),
        outcome is None ==> (r matches Ok(_) && final(tickets)@ == old(tickets)@.update(
            ticket_idx(old(tickets)@, plan.event_id@, plan.ticket_id),
            transfer_effect(
                ticket_at(old(tickets)@, plan.event_id@, plan.ticket_id),
                now,
                new_owner@,
            ),
        )),
        outcome matches Some(Ok(_)) ==> (r matches Ok(_) && final(tickets)@
            == old(tickets)@.update(
            ticket_idx(old(tickets)@, plan.event_id@, plan.ticket_id),
            transfer_effect(
                ticket_at(old(tickets)@, plan.event_id@, plan.ticket_id),
                now,
                new_owner@,
            ),
        )),
        outcome matches Some(Err(e)) ==> (r matches Err(err) && err == Error::Payment(e)
            && final(tickets)@ == old(tickets)@.update(
            ticket_idx(old(tickets)@, plan.event_id@, plan.ticket_id),
            clear_in_flight_effect(ticket_at(old(tickets)@, plan.event_id@, plan.ticket_id)),
        )),
{
    match outcome {
        None => {
            tickets.set_owner(&plan.event_id, plan.ticket_id, new_owner, now);
            Ok(())
        },
        Some(Ok(_block_height)) => {
            tickets.set_owner(&plan.event_id, plan.ticket_id, new_owner, now);
            Ok(())
        },
        Some(Err(e)) => {
            tickets.clear_in_flight(&plan.event_id, plan.ticket_id);
            Err(Error::Payment(e))
        },
    }
}

/// The synchronous first half of a withdrawal: only the organizer may
/// withdraw, at most what is collected, and the amount leaves the balance
/// before the payout suspends, so a second withdrawal cannot spend it
/// again. Nothing is reserved, and no ledger call is owed, when the
/// amount exceeds the collected funds.
pub fn begin_withdrawal(
    events: &mut EventStore,
    event_id: &String,
    caller: &AccountId,
    amount: u128,
) -> (r: Result<WithdrawReservation, Error>)
    requires
        old(events).wf(),
    ensures
        final(events).wf(),
        !has_event(old(events)@, event_id@) ==> (r matches Err(e) && e == Error::EventNotFound
            && final(events)@ == old(events)@),
        has_event(old(events)@, event_id@) && event_at(old(events)@, event_id@).organizer
            != caller@ ==> (r matches Err(e) && e == Error::NotOrganizer && final(events)@
            == old(events)@),
        has_event(old(events)@, event_id@) && event_at(old(events)@, event_id@).organizer
            == caller@ && amount > event_at(old(events)@, event_id@).funds_collected ==> (r
            matches Err(e) && e == Error::InsufficientFunds && final(events)@ == old(events)@),
        has_event(old(events)@, event_id@) && event_at(old(events)@, event_id@).organizer
            == caller@ && amount <= event_at(old(events)@, event_id@).funds_collected ==> (r
            matches Ok(tok) && {
            let m = event_at(old(events)@, event_id@);
            &&& tok.event_id@ == event_id@
            &&& tok.organizer@ == m.organizer
            &&& tok.amount == amount
            &&& final(events)@ == old(events)@.update(
                event_idx(old(events)@, event_id@),
                reserve_withdrawal_effect(m, amount),
            )
            &&& withdrawal_outstanding(final(events)@, tok)
        }),
{
    let authorized = match events.get(event_id) {
        None => {
            return Err(Error::EventNotFound);
        },
        Some(ev) => ev.organizer == *caller,
    };
    if !authorized {
        return Err(Error::NotOrganizer);
    }
    events.reserve_withdrawal(event_id, amount)
}

/// The synchronous second half of a withdrawal. On payout success the
/// reservation commits, which needs no further state change: the amount
/// already left the balance. On failure the amount is re-credited in
/// full and the ledger's error is surfaced.
pub fn finish_withdrawal(
    events: &mut EventStore,
    reservation: WithdrawReservation,
    outcome: Result<u128, TransferError>,
) -> (r: Result<(), Error>)
    requires
        old(events).wf(),
        withdrawal_outstanding(old(events)@, reservation),
    ensures
        final(events).wf(),
        outcome matches Ok(_) ==> (r matches Ok(_) && final(events)@ == old(events)@),
        outcome matches Err(e) ==> (r matches Err(err) && err == Error::Payment(e)
            && final(events)@ == old(events)@.update(
            event_idx(old(events)@, reservation.event_id@),
            rollback_withdrawal_effect(
                event_at(old(events)@, reservation.event_id@),
                reservation.amount,
            ),
        )),
{
    match outcome {
        Ok(_block_height) => Ok(()),
        Err(e) => {
            events.rollback_withdrawal(&reservation);
            Err(Error::Payment(e))
        },
    }
}

impl TransferPlan {
    /// The transfer request that pays the seller the agreed resale price,
    /// tagged with the ticket number. Only a paid plan owes a payment.
    pub fn payment_args(&self, now: u64) -> (r: TransferArgs)
        requires
            self.payment matches Some(_),
        ensures
            self.payment matches Some(p) ==> {
                &&& r.to@ == self.seller@
                &&& r.amount == p
                &&& r.fee == LEDGER_FEE
                &&& r.memo@ == resale_memo(self.ticket_id)
                &&& r.from_subaccount is None
                &&& r.created_at_time == Some(now)
            },
    {
        let amount = if let Some(p) = self.payment {
            p
        } else {
            0
        };
        TransferArgs {
            to: self.seller.clone(),
            amount,
            fee: LEDGER_FEE,
            memo: crate::ledger::resale_memo_bytes(self.ticket_id),
            from_subaccount: None,
            created_at_time: Some(now),
        }
    }
}

impl WithdrawReservation {
    /// The transfer request that pays the organizer the reserved amount,
    /// tagged with the event identifier.
    pub fn payment_args(&self, now: u64) -> (r: TransferArgs)
        requires
            is_ascii_chars(self.event_id@),
        ensures
            r.to@ == self.organizer@,
            r.amount == self.amount,
            r.fee == LEDGER_FEE,
            r.memo@ == withdraw_memo(self.event_id@),
            r.from_subaccount is None,
            r.created_at_time == Some(now),
    {
        TransferArgs {
            to: self.organizer.clone(),
            amount: self.amount,
            fee: LEDGER_FEE,
            memo: crate::ledger::withdraw_memo_bytes(&self.event_id),
            from_subaccount: None,
            created_at_time: Some(now),
        }
    }
}

impl SaleReservation {
    /// The transfer request that pays the organizer the ticket price,
    /// tagged with the event identifier.
    pub fn payment_args(&self, now: u64) -> (r: TransferArgs)
        requires
            is_ascii_chars(self.event_id@),
        ensures
            r.to@ == self.organizer@,
            r.amount == self.price as u128,
            r.fee == LEDGER_FEE,
            r.memo@ == purchase_memo(self.event_id@),
            r.from_subaccount is None,
            r.created_at_time == Some(now),
    {
        TransferArgs {
            to: self.organizer.clone(),
            amount: self.price as u128,
            fee: LEDGER_FEE,
            memo: str_ascii_bytes(self.event_id.as_str()),
            from_subaccount: None,
            created_at_time: Some(now),
        }
    }
}

} // verus!
