//! Read-only accessors over the two stores.
//!
//! Pure reads of the latest committed state; no reservation semantics
//! apply, and no intermediate reservation state is visible beyond the
//! counters the protocol maintains.

use vstd::prelude::*;

use crate::account::AccountId;
use crate::errors::Error;
use crate::events::Event;
use crate::events::EventModel;
use crate::events::EventStore;
use crate::events::event_at;
use crate::events::has_event;
use crate::tickets::MetadataModel;
use crate::tickets::Ticket;
use crate::tickets::TicketMetadata;
use crate::tickets::TicketModel;
use crate::tickets::TicketStore;
use crate::tickets::clone_history;
use crate::tickets::has_ticket;
use crate::tickets::history_view;
use crate::tickets::ticket_at;

verus! {

/// The models of a vector of events.
pub open spec fn event_views(s: Seq<Event>) -> Seq<EventModel> {
    s.map_values(|e: Event| e@)
}

/// The models of a vector of tickets.
pub open spec fn ticket_views(s: Seq<Ticket>) -> Seq<TicketModel> {
    s.map_values(|t: Ticket| t@)
}

/// The events organized by `who`, in store order.
pub open spec fn events_of_organizer(s: Seq<EventModel>, who: Seq<u8>) -> Seq<EventModel>
    decreases s.len(),
{
    if s.len() == 0 {
        Seq::empty()
    } else {
        let rest = events_of_organizer(s.drop_last(), who);
        if s.last().organizer == who {
            rest.push(s.last())
        } else {
            rest
        }
    }
}

/// The tickets held by `who`, in store order.
pub open spec fn tickets_of_owner(s: Seq<TicketModel>, who: Seq<u8>) -> Seq<TicketModel>
    decreases s.len(),
{
    if s.len() == 0 {
        Seq::empty()
    } else {
        let rest = tickets_of_owner(s.drop_last(), who);
        if s.last().owner == who {
            rest.push(s.last())
        } else {
            rest
        }
    }
}

/// The event stored under the identifier, or why there is none.
pub fn get_event(events: &EventStore, event_id: &String) -> (r: Result<Event, Error>)
    requires
        events.wf(),
    ensures
        has_event(events@, event_id@) ==> (r matches Ok(e) && e@ == event_at(
            events@,
            event_id@,
        )),
        !has_event(events@, event_id@) ==> (r matches Err(e) && e == Error::EventNotFound),
{
    match events.get(event_id) {
        Some(e) => Ok(e.clone()),
        None => Err(Error::EventNotFound),
    }
}

/// The event's ticket stored under the number, or why there is none.
pub fn get_ticket(tickets: &TicketStore, event_id: &String, ticket_id: u64) -> (r: Result<
    Ticket,
    Error,
>)
    requires
        tickets.wf(),
    ensures
        has_ticket(tickets@, event_id@, ticket_id) ==> (r matches Ok(t) && t@ == ticket_at(
            tickets@,
            event_id@,
            ticket_id,
        )),
        !has_ticket(tickets@, event_id@, ticket_id) ==> (r matches Err(e) && e
            == Error::TicketNotFound),
{
    match tickets.get(event_id, ticket_id) {
        Some(t) => Ok(t.clone()),
        None => Err(Error::TicketNotFound),
    }
}

/// All events organized by the given account, in store order.
pub fn get_events_by_organizer(events: &EventStore, organizer: &AccountId) -> (r: Vec<Event>)
    ensures
        event_views(r@) == events_of_organizer(events@, organizer@),
{
    let mut out: Vec<Event> = Vec::new();
    let n = events.len();
    let mut i: usize = 0;
    while i < n
        invariant
            0 <= i <= n == events@.len(),
            event_views(out@) == events_of_organizer(events@.take(i as int), organizer@),
        decreases n - i,
    {
        let ghost pre = out@;
        let e = events.at(i);
        if e.organizer == *organizer {
            out.push(e.clone());
        }
        proof {
            assert(events@.take(i + 1 as int).drop_last() =~= events@.take(i as int));
            assert(events@.take(i + 1 as int).last() == events@[i as int]);
            if events@[i as int].organizer == organizer@ {
                assert(event_views(out@) =~= event_views(pre).push(events@[i as int]));
            } else {
                assert(event_views(out@) =~= event_views(pre));
            }
        }
        i = i + 1;
    }
    proof {
        assert(events@.take(n as int) =~= events@);
    }
    out
}

/// All tickets held by the given account, in store order.
pub fn get_tickets_by_owner(tickets: &TicketStore, owner: &AccountId) -> (r: Vec<Ticket>)
    ensures
        ticket_views(r@) == tickets_of_owner(tickets@, owner@),
{
    let mut out: Vec<Ticket> = Vec::new();
    let n = tickets.len();
    let mut i: usize = 0;
    while i < n
        invariant
            0 <= i <= n == tickets@.len(),
            ticket_views(out@) == tickets_of_owner(tickets@.take(i as int), owner@),
        decreases n - i,
    {
        let ghost pre = out@;
        let t = tickets.at(i);
        if t.owner == *owner {
            out.push(t.clone());
        }
        proof {
            assert(tickets@.take(i + 1 as int).drop_last() =~= tickets@.take(i as int));
            assert(tickets@.take(i + 1 as int).last() == tickets@[i as int]);
            if tickets@[i as int].owner == owner@ {
                assert(ticket_views(out@) =~= ticket_views(pre).push(tickets@[i as int]));
            } else {
                assert(ticket_views(out@) =~= ticket_views(pre));
            }
        }
        i = i + 1;
    }
    proof {
        assert(tickets@.take(n as int) =~= tickets@);
    }
    out
}

/// The descriptive attributes of a ticket, for NFT-aware tooling.
pub fn icrc7_metadata(tickets: &TicketStore, event_id: &String, ticket_id: u64) -> (r: Result<
    TicketMetadata,
    Error,
>)
    requires
        tickets.wf(),
    ensures
        has_ticket(tickets@, event_id@, ticket_id) ==> (r matches Ok(md) && md@ == ticket_at(
            tickets@,
            event_id@,
            ticket_id,
        ).metadata),
        !has_ticket(tickets@, event_id@, ticket_id) ==> (r matches Err(e) && e
            == Error::TicketNotFound),
{
    match tickets.get(event_id, ticket_id) {
        Some(t) => Ok(t.metadata.clone()),
        None => Err(Error::TicketNotFound),
    }
}

/// The current holder of a ticket, for NFT-aware tooling.
pub fn icrc7_owner_of(tickets: &TicketStore, event_id: &String, ticket_id: u64) -> (r: Result<
    AccountId,
    Error,
>)
    requires
        tickets.wf(),
    ensures
        has_ticket(tickets@, event_id@, ticket_id) ==> (r matches Ok(who) && who@ == ticket_at(
            tickets@,
            event_id@,
            ticket_id,
        ).owner),
        !has_ticket(tickets@, event_id@, ticket_id) ==> (r matches Err(e) && e
            == Error::TicketNotFound),
{
    match tickets.get(event_id, ticket_id) {
        Some(t) => Ok(t.owner.clone()),
        None => Err(Error::TicketNotFound),
    }
}

/// The full transfer history of a ticket, for NFT-aware tooling.
pub fn icrc7_transfer_history(tickets: &TicketStore, event_id: &String, ticket_id: u64) -> (r:
    Result<Vec<(u64, AccountId)>, Error>)
    requires
        tickets.wf(),
    ensures
        has_ticket(tickets@, event_id@, ticket_id) ==> (r matches Ok(h) && history_view(h@)
            == ticket_at(tickets@, event_id@, ticket_id).transfer_history),
        !has_ticket(tickets@, event_id@, ticket_id) ==> (r matches Err(e) && e
            == Error::TicketNotFound),
{
    match tickets.get(event_id, ticket_id) {
        Some(t) => Ok(clone_history(&t.transfer_history)),
        None => Err(Error::TicketNotFound),
    }
}

} // verus!
