//! Tickets and the ticket store.
//!
//! A ticket is minted once, at purchase, and afterwards changes only by
//! ownership transfer, which appends to its history and overwrites its
//! owner in one non-suspending step. While a resale payment is in flight
//! the ticket is marked, so that no second transfer of the same ticket can
//! begin before the first commits or rolls back.

use vstd::prelude::*;

use crate::account::AccountId;

verus! {

/// The mathematical content of a `TicketMetadata`.
#[verifier::ext_equal]
pub ghost struct MetadataModel {
    pub event_id: Seq<char>,
    pub seat: Option<Seq<char>>,
    pub tier: Option<Seq<char>>,
    pub image_url: Option<Seq<char>>,
}

/// Descriptive ticket attributes, immutable after the mint.
#[derive(Debug)]
pub struct TicketMetadata {
    pub event_id: String,
    pub seat: Option<String>,
    pub tier: Option<String>,
    pub image_url: Option<String>,
}

/// The character content of an optional descriptor.
pub open spec fn opt_text_view(o: &Option<String>) -> Option<Seq<char>> {
    match o {
        None => None,
        Some(s) => Some(s@),
    }
}

impl View for TicketMetadata {
    type V = MetadataModel;

    open spec fn view(&self) -> MetadataModel {
        MetadataModel {
            event_id: self.event_id@,
            seat: opt_text_view(&self.seat),
            tier: opt_text_view(&self.tier),
            image_url: opt_text_view(&self.image_url),
        }
    }
}

fn clone_opt_text(o: &Option<String>) -> (r: Option<String>)
    ensures
        opt_text_view(&r) == opt_text_view(o),
{
    match o {
        None => None,
        Some(s) => Some(s.clone()),
    }
}

impl Clone for TicketMetadata {
    fn clone(&self) -> (r: Self)
        ensures
            r@ == self@,
    {
        TicketMetadata {
            event_id: self.event_id.clone(),
            seat: clone_opt_text(&self.seat),
            tier: clone_opt_text(&self.tier),
            image_url: clone_opt_text(&self.image_url),
        }
    }
}

/// The mathematical content of a `Ticket`: the transfer history is a
/// sequence of (timestamp, new owner) pairs whose first entry is the mint.
#[verifier::ext_equal]
pub ghost struct TicketModel {
    pub id: u64,
    pub owner: Seq<u8>,
    pub metadata: MetadataModel,
    pub original_price: u64,
    pub transfer_history: Seq<(u64, Seq<u8>)>,
    pub in_flight: bool,
}

impl TicketModel {
    /// The ticket invariant: the history holds at least the mint entry,
    /// and its last entry names the current owner.
    pub open spec fn wf(self) -> bool {
        &&& self.transfer_history.len() >= 1
        &&& self.transfer_history.last().1 == self.owner
    }
}

/// A ticket: its number within the event, its holder, and its full
/// transfer history. `in_flight` marks a pending resale payment.
#[derive(Debug)]
pub struct Ticket {
    pub id: u64,
    pub owner: AccountId,
    pub metadata: TicketMetadata,
    pub original_price: u64,
    pub transfer_history: Vec<(u64, AccountId)>,
    pub in_flight: bool,
}

/// The transfer history as (timestamp, account bytes) pairs.
pub open spec fn history_view(h: Seq<(u64, AccountId)>) -> Seq<(u64, Seq<u8>)> {
    h.map_values(|p: (u64, AccountId)| (p.0, p.1@))
}

impl View for Ticket {
    type V = TicketModel;

    open spec fn view(&self) -> TicketModel {
        TicketModel {
            id: self.id,
            owner: self.owner@,
            metadata: self.metadata@,
            original_price: self.original_price,
            transfer_history: history_view(self.transfer_history@),
            in_flight: self.in_flight,
        }
    }
}

/// Clones a transfer history, keeping timestamps and account bytes.
pub fn clone_history(h: &Vec<(u64, AccountId)>) -> (r: Vec<(u64, AccountId)>)
    ensures
        history_view(r@) == history_view(h@),
{
    let mut out: Vec<(u64, AccountId)> = Vec::new();
    let mut i: usize = 0;
    while i < h.len()
        invariant
            0 <= i <= h@.len(),
            out@.len() == i,
            forall|j: int| 0 <= j < i ==> out@[j].0 == #[trigger] h@[j].0 && out@[j].1@
                == h@[j].1@,
        decreases h@.len() - i,
    {
        let ts = h[i].0;
        let who = h[i].1.clone();
        proof {
            assert(ts == h@[i as int].0);
            assert(who@ == h@[i as int].1@);
        }
        out.push((ts, who));
        proof {
            assert(out@[i as int].0 == h@[i as int].0);
            assert(out@[i as int].1@ == h@[i as int].1@);
        }
        i = i + 1;
    }
    proof {
        assert(history_view(out@) =~= history_view(h@));
    }
    out
}

impl Clone for Ticket {
    fn clone(&self) -> (r: Self)
        ensures
            r@ == self@,
    {
        let r = Ticket {
            id: self.id,
            owner: self.owner.clone(),
            metadata: self.metadata.clone(),
            original_price: self.original_price,
            transfer_history: clone_history(&self.transfer_history),
            in_flight: self.in_flight,
        };
        proof {
            assert(r@ =~= self@);
        }
        r
    }
}

/// A ticket's number is unique only within its event's numbering, so a
/// ticket is keyed by the pair of its event identifier and its number.
pub open spec fn ticket_keyed(t: TicketModel, event_id: Seq<char>, id: u64) -> bool {
    t.id == id && t.metadata.event_id == event_id
}

/// Whether the table holds a ticket with this number for this event.
pub open spec fn has_ticket(s: Seq<TicketModel>, event_id: Seq<char>, id: u64) -> bool {
    exists|i: int| 0 <= i < s.len() && ticket_keyed(s[i], event_id, id)
}

/// The position of this event's ticket with this number; meaningful when
/// the keys are unique and `has_ticket` holds.
pub open spec fn ticket_idx(s: Seq<TicketModel>, event_id: Seq<char>, id: u64) -> int {
    choose|i: int| 0 <= i < s.len() && ticket_keyed(s[i], event_id, id)
}

/// This event's ticket with this number.
pub open spec fn ticket_at(s: Seq<TicketModel>, event_id: Seq<char>, id: u64) -> TicketModel {
    s[ticket_idx(s, event_id, id)]
}

/// Keys are unique — no two tickets share both event and number, so a
/// sale of one event can never touch a ticket of another — and every
/// ticket satisfies its invariant.
pub open spec fn tickets_wf(s: Seq<TicketModel>) -> bool {
    &&& forall|i: int, j: int| 0 <= i < j < s.len() ==> (s[i].id != s[j].id
        || s[i].metadata.event_id != s[j].metadata.event_id)
    &&& forall|i: int| 0 <= i < s.len() ==> (#[trigger] s[i]).wf()
}

/// Transferring: the new owner takes over and joins the history; any
/// in-flight mark is resolved by the same step.
pub open spec fn transfer_effect(t: TicketModel, now: u64, new_owner: Seq<u8>) -> TicketModel {
    TicketModel {
        owner: new_owner,
        transfer_history: t.transfer_history.push((now, new_owner)),
        in_flight: false,
        ..t
    }
}

/// Marking a resale as in flight before the payment suspends.
pub open spec fn mark_in_flight_effect(t: TicketModel) -> TicketModel {
    TicketModel { in_flight: true, ..t }
}

/// Clearing the in-flight mark after a refused payment; ownership and
/// history are untouched.
pub open spec fn clear_in_flight_effect(t: TicketModel) -> TicketModel {
    TicketModel { in_flight: false, ..t }
}

/// The keyed table of tickets.
pub struct TicketStore {
    items: Vec<Ticket>,
}

impl View for TicketStore {
    type V = Seq<TicketModel>;

    closed spec fn view(&self) -> Seq<TicketModel> {
        self.items@.map_values(|t: Ticket| t@)
    }
}

/// When keys are unique and position `i` holds the key, lookup by the
/// key lands on `i`.
pub proof fn lemma_ticket_found(s: Seq<TicketModel>, event_id: Seq<char>, id: u64, i: int)
    requires
        forall|p: int, q: int| 0 <= p < q < s.len() ==> (s[p].id != s[q].id
            || s[p].metadata.event_id != s[q].metadata.event_id),
        0 <= i < s.len(),
        ticket_keyed(s[i], event_id, id),
    ensures
        has_ticket(s, event_id, id),
        ticket_idx(s, event_id, id) == i,
        ticket_at(s, event_id, id) == s[i],
{
    assert(has_ticket(s, event_id, id));
    let k = ticket_idx(s, event_id, id);
    assert(0 <= k < s.len() && ticket_keyed(s[k], event_id, id));
    if k < i {
        assert(s[k].id != s[i].id || s[k].metadata.event_id != s[i].metadata.event_id);
    } else if i < k {
        assert(s[i].id != s[k].id || s[i].metadata.event_id != s[k].metadata.event_id);
    }
}

impl TicketStore {
    pub open spec fn wf(&self) -> bool {
        tickets_wf(self@)
    }

    pub fn new() -> (r: TicketStore)
        ensures
            r@ == Seq::<TicketModel>::empty(),
            r.wf(),
    {
        let r = TicketStore { items: Vec::new() };
        proof {
            assert(r@ =~= Seq::<TicketModel>::empty());
        }
        r
    }

    pub fn len(&self) -> (r: usize)
        ensures
            r == self@.len(),
    {
        self.items.len()
    }

    pub fn at(&self, i: usize) -> (r: &Ticket)
        requires
            i < self@.len(),
        ensures
            r@ == self@[i as int],
    {
        &self.items[i]
    }

    /// The position of this event's ticket with this number, if any.
    fn find(&self, event_id: &String, id: u64) -> (r: Option<usize>)
        ensures
            match r {
                Some(i) => {
                    &&& i < self@.len()
                    &&& ticket_keyed(self@[i as int], event_id@, id)
                    &&& has_ticket(self@, event_id@, id)
                    &&& self.wf() ==> i == ticket_idx(self@, event_id@, id)
                },
                None => !has_ticket(self@, event_id@, id),
            },
    {
        let n = self.items.len();
        let mut i: usize = 0;
        while i < n
            invariant
                0 <= i <= n == self@.len(),
                self@.len() == self.items@.len(),
                forall|j: int| 0 <= j < i ==> !ticket_keyed(#[trigger] self@[j], event_id@, id),
            decreases n - i,
        {
            let hit = self.items[i].id == id && self.items[i].metadata.event_id == *event_id;
            proof {
                assert(self@[i as int] == self.items@[i as int]@);
            }
            if hit {
                proof {
                    if self.wf() {
                        let k = ticket_idx(self@, event_id@, id);
                        assert(0 <= k < self@.len() && ticket_keyed(self@[k], event_id@, id));
                        assert(k == i);
                    }
                }
                return Some(i);
            }
            i = i + 1;
        }
        None
    }

    /// Read access by event identifier and ticket number.
    pub fn get(&self, event_id: &String, id: u64) -> (r: Option<&Ticket>)
        requires
            self.wf(),
        ensures
            match r {
                Some(t) => has_ticket(self@, event_id@, id) && t@ == ticket_at(
                    self@,
                    event_id@,
                    id,
                ),
                None => !has_ticket(self@, event_id@, id),
            },
    {
        match self.find(event_id, id) {
            Some(i) => Some(&self.items[i]),
            None => None,
        }
    }

    /// Inserts a ticket under its event and number, replacing any ticket
    /// already stored under the same key; every other ticket, and in
    /// particular every ticket of any other event, is untouched.
    pub(crate) fn insert(&mut self, t: Ticket)
        requires
            old(self).wf(),
            t@.wf(),
        ensures
            final(self).wf(),
            has_ticket(old(self)@, t@.metadata.event_id, t@.id) ==> final(self)@
                == old(self)@.update(
                ticket_idx(old(self)@, t@.metadata.event_id, t@.id),
                t@,
            ),
            !has_ticket(old(self)@, t@.metadata.event_id, t@.id) ==> final(self)@
                == old(self)@.push(t@),
            has_ticket(final(self)@, t@.metadata.event_id, t@.id),
            ticket_at(final(self)@, t@.metadata.event_id, t@.id) == t@,
    {
        let ghost pre = self@;
        let found = self.find(&t.metadata.event_id, t.id);
        match found {
            Some(i) => {
                let ghost k = ticket_idx(pre, t@.metadata.event_id, t@.id);
                self.items[i] = t;
                proof {
                    assert(final(self)@ =~= pre.update(k, t@));
                    lemma_ticket_found(final(self)@, t@.metadata.event_id, t@.id, k);
                }
            },
            None => {
                self.items.push(t);
                proof {
                    assert(final(self)@ =~= pre.push(t@));
                    lemma_ticket_found(
                        final(self)@,
                        t@.metadata.event_id,
                        t@.id,
                        pre.len() as int,
                    );
                }
            },
        }
    }

    /// Takes a ticket back into the store at the persistence boundary: after
    /// a restore from durable storage the record is held to the ticket
    /// invariant before it re-enters, bit-for-bit unchanged.
    pub fn restore(&mut self, t: Ticket) -> (r: Result<(), crate::errors::Error>)
        requires
            old(self).wf(),
        ensures
            final(self).wf(),
            !t@.wf() ==> (r matches Err(err) && err == crate::errors::Error::InvalidTicket
                && final(self)@ == old(self)@),
            t@.wf() ==> (r matches Ok(_) && {
                &&& has_ticket(old(self)@, t@.metadata.event_id, t@.id) ==> final(self)@
                    == old(self)@.update(
                    ticket_idx(old(self)@, t@.metadata.event_id, t@.id),
                    t@,
                )
                &&& !has_ticket(old(self)@, t@.metadata.event_id, t@.id) ==> final(self)@
                    == old(self)@.push(t@)
            }),
    {
        let n = t.transfer_history.len();
        if n >= 1 && t.transfer_history[n - 1].1 == t.owner {
            proof {
                assert(t@.transfer_history.last() == (
                    t.transfer_history@[n - 1].0,
                    t.transfer_history@[n - 1].1@,
                ));
            }
            self.insert(t);
            Ok(())
        } else {
            proof {
                if n >= 1 {
                    assert(t@.transfer_history.last() == (
                        t.transfer_history@[n - 1].0,
                        t.transfer_history@[n - 1].1@,
                    ));
                }
            }
            Err(crate::errors::Error::InvalidTicket)
        }
    }

    /// Transfers ownership: overwrites the owner and appends to the
    /// history atomically within one non-suspending step.
    pub(crate) fn set_owner(&mut self, event_id: &String, id: u64, new_owner: AccountId, now: u64)
        requires
            old(self).wf(),
            has_ticket(old(self)@, event_id@, id),
        ensures
            final(self).wf(),
            final(self)@ == old(self)@.update(
                ticket_idx(old(self)@, event_id@, id),
                transfer_effect(ticket_at(old(self)@, event_id@, id), now, new_owner@),
            ),
    {
        let found = self.find(event_id, id);
        match found {
            Some(i) => {
                let ghost pre = self@;
                let ghost m = self@[i as int];
                let ghost no = new_owner@;
                let mut c = self.items[i].clone();
                let entry_owner = new_owner.clone();
                c.owner = new_owner;
                c.transfer_history.push((now, entry_owner));
                c.in_flight = false;
                proof {
                    assert(history_view(c.transfer_history@) =~= m.transfer_history.push(
                        (now, no),
                    ));
                    assert(c@ =~= transfer_effect(m, now, no));
                }
                self.items[i] = c;
                proof {
                    assert(final(self)@ =~= pre.update(
                        i as int,
                        transfer_effect(m, now, no),
                    ));
                }
            },
            None => {
                proof {
                    assert(false);
                }
            },
        }
    }

    /// Marks a resale as in flight before its payment suspends.
    pub(crate) fn mark_in_flight(&mut self, event_id: &String, id: u64)
        requires
            old(self).wf(),
            has_ticket(old(self)@, event_id@, id),
        ensures
            final(self).wf(),
            final(self)@ == old(self)@.update(
                ticket_idx(old(self)@, event_id@, id),
                mark_in_flight_effect(ticket_at(old(self)@, event_id@, id)),
            ),
    {
        let found = self.find(event_id, id);
        match found {
            Some(i) => {
                let ghost pre = self@;
                let ghost m = self@[i as int];
                let mut c = self.items[i].clone();
                c.in_flight = true;
                proof {
                    assert(c@ =~= mark_in_flight_effect(m));
                }
                self.items[i] = c;
                proof {
                    assert(final(self)@ =~= pre.update(i as int, mark_in_flight_effect(m)));
                }
            },
            None => {
                proof {
                    assert(false);
                }
            },
        }
    }

    /// Clears the in-flight mark after a refused resale payment.
    pub(crate) fn clear_in_flight(&mut self, event_id: &String, id: u64)
        requires
            old(self).wf(),
            has_ticket(old(self)@, event_id@, id),
        ensures
            final(self).wf(),
            final(self)@ == old(self)@.update(
                ticket_idx(old(self)@, event_id@, id),
                clear_in_flight_effect(ticket_at(old(self)@, event_id@, id)),
            ),
    {
        let found = self.find(event_id, id);
        match found {
            Some(i) => {
                let ghost pre = self@;
                let ghost m = self@[i as int];
                let mut c = self.items[i].clone();
                c.in_flight = false;
                proof {
                    assert(c@ =~= clear_in_flight_effect(m));
                }
                self.items[i] = c;
                proof {
                    assert(final(self)@ =~= pre.update(i as int, clear_in_flight_effect(m)));
                }
            },
            None => {
                proof {
                    assert(false);
                }
            },
        }
    }
}

} // verus!
