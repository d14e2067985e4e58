//! Events and the event store.
//!
//! An `Event` owns the two counters the reservation protocol guards:
//! `tickets_sold` (reserved plus committed sales) and `funds_collected`
//! (proceeds available for withdrawal). The store's mutators are the
//! synchronous halves of that protocol: `reserve_sale` / `commit_sale` /
//! `rollback_sale` around a ticket payment, and `reserve_withdrawal` /
//! `rollback_withdrawal` around a payout. Each runs in one non-suspending
//! segment; the suspending ledger call happens between them, outside this
//! library.

use vstd::prelude::*;
use vstd::utf8::encode_utf8;
use vstd::utf8::is_ascii_chars;

use crate::account::AccountId;
use crate::account::accounts_view;
use crate::errors::Error;

verus! {

/// The resale price cap, as a positive rational multiplier `num / den`
/// of a ticket's original price.
#[derive(Clone, Copy, Debug, PartialEq, Eq, Structural)]
pub struct ResaleMultiplier {
    pub num: u64,
    pub den: u64,
}

impl ResaleMultiplier {
    /// A multiplier is a positive rational.
    pub open spec fn wf(self) -> bool {
        self.num >= 1 && self.den >= 1
    }
}

/// The mathematical content of an `Event`: what every contract of this
/// module speaks about.
#[verifier::ext_equal]
pub ghost struct EventModel {
    pub id: Seq<char>,
    pub name: Seq<char>,
    pub date: u64,
    pub location: Seq<char>,
    pub organizer: Seq<u8>,
    pub ticket_price: u64,
    pub max_resale_multiplier: Option<ResaleMultiplier>,
    pub total_tickets: u64,
    pub tickets_sold: u64,
    pub funds_collected: u128,
    pub funds_withdrawn: u128,
    pub whitelist: Option<Seq<Seq<u8>>>,
}

impl EventModel {
    /// The event invariant. `tickets_sold` counts reserved and committed
    /// sales and never exceeds capacity, and the collected funds plus
    /// everything reserved or committed for withdrawal never exceed the
    /// proceeds of the sales counted so far.
    pub open spec fn wf(self) -> bool {
        &&& 1 <= encode_utf8(self.name).len() <= 100
        &&& self.total_tickets >= 1
        &&& self.tickets_sold <= self.total_tickets
        &&& self.funds_collected + self.funds_withdrawn <= self.tickets_sold
            * self.ticket_price
        &&& match self.max_resale_multiplier {
            Some(m) => m.wf(),
            None => true,
        }
        &&& is_ascii_chars(self.id)
    }
}

/// An event: a fixed ticket supply at a fixed price, sold by one organizer.
#[derive(Debug)]
pub struct Event {
    pub id: String,
    pub name: String,
    pub date: u64,
    pub location: String,
    pub organizer: AccountId,
    pub ticket_price: u64,
    pub max_resale_multiplier: Option<ResaleMultiplier>,
    pub total_tickets: u64,
    pub tickets_sold: u64,
    pub funds_collected: u128,
    pub funds_withdrawn: u128,
    pub whitelist: Option<Vec<AccountId>>,
}

/// The whitelist as account byte sequences, where one is present.
pub open spec fn whitelist_view(w: &Option<Vec<AccountId>>) -> Option<Seq<Seq<u8>>> {
    match w {
        None => None,
        Some(v) => Some(accounts_view(v@)),
    }
}

impl View for Event {
    type V = EventModel;

    open spec fn view(&self) -> EventModel {
        EventModel {
            id: self.id@,
            name: self.name@,
            date: self.date,
            location: self.location@,
            organizer: self.organizer@,
            ticket_price: self.ticket_price,
            max_resale_multiplier: self.max_resale_multiplier,
            total_tickets: self.total_tickets,
            tickets_sold: self.tickets_sold,
            funds_collected: self.funds_collected,
            funds_withdrawn: self.funds_withdrawn,
            whitelist: whitelist_view(&self.whitelist),
        }
    }
}

impl Clone for Event {
    fn clone(&self) -> (r: Self)
        ensures
            r@ == self@,
    {
        let whitelist = match &self.whitelist {
            None => None,
            Some(v) => Some(crate::account::clone_accounts(v)),
        };
        let r = Event {
            id: self.id.clone(),
            name: self.name.clone(),
            date: self.date,
            location: self.location.clone(),
            organizer: self.organizer.clone(),
            ticket_price: self.ticket_price,
            max_resale_multiplier: self.max_resale_multiplier,
            total_tickets: self.total_tickets,
            tickets_sold: self.tickets_sold,
            funds_collected: self.funds_collected,
            funds_withdrawn: self.funds_withdrawn,
            whitelist,
        };
        proof {
            assert(r@ =~= self@);
        }
        r
    }
}

/// Whether the table holds an event with this identifier.
pub open spec fn has_event(s: Seq<EventModel>, id: Seq<char>) -> bool {
    exists|i: int| 0 <= i < s.len() && s[i].id == id
}

/// The position of the event with this identifier; meaningful when the
/// identifiers are unique and `has_event` holds.
pub open spec fn event_idx(s: Seq<EventModel>, id: Seq<char>) -> int {
    choose|i: int| 0 <= i < s.len() && s[i].id == id
}

/// The event with this identifier.
pub open spec fn event_at(s: Seq<EventModel>, id: Seq<char>) -> EventModel {
    s[event_idx(s, id)]
}

/// Identifiers are unique and every event satisfies its invariant.
pub open spec fn events_wf(s: Seq<EventModel>) -> bool {
    &&& forall|i: int, j: int| 0 <= i < j < s.len() ==> s[i].id != s[j].id
    &&& forall|i: int| 0 <= i < s.len() ==> (#[trigger] s[i]).wf()
}

/// The keyed table of events.
pub struct EventStore {
    items: Vec<Event>,
}

impl View for EventStore {
    type V = Seq<EventModel>;

    closed spec fn view(&self) -> Seq<EventModel> {
        self.items@.map_values(|e: Event| e@)
    }
}

impl EventStore {
    pub open spec fn wf(&self) -> bool {
        events_wf(self@)
    }

    pub fn new() -> (r: EventStore)
        ensures
            r@ == Seq::<EventModel>::empty(),
            r.wf(),
    {
        let r = EventStore { items: Vec::new() };
        proof {
            assert(r@ =~= Seq::<EventModel>::empty());
        }
        r
    }

    pub fn len(&self) -> (r: usize)
        ensures
            r == self@.len(),
    {
        self.items.len()
    }

    pub fn at(&self, i: usize) -> (r: &Event)
        requires
            i < self@.len(),
        ensures
            r@ == self@[i as int],
    {
        &self.items[i]
    }

    /// The position of the event with this identifier, if any.
    fn find(&self, id: &String) -> (r: Option<usize>)
        ensures
            match r {
                Some(i) => {
                    &&& i < self@.len()
                    &&& self@[i as int].id == id@
                    &&& has_event(self@, id@)
                    &&& self.wf() ==> i == event_idx(self@, id@)
                },
                None => !has_event(self@, id@),
            },
    {
        let n = self.items.len();
        let mut i: usize = 0;
        while i < n
            invariant
                0 <= i <= n == self@.len(),
                self@.len() == self.items@.len(),
                forall|j: int| 0 <= j < i ==> (#[trigger] self@[j]).id != id@,
            decreases n - i,
        {
            let hit = self.items[i].id == *id;
            proof {
                assert(self@[i as int] == self.items@[i as int]@);
            }
            if hit {
                proof {
                    assert(self@[i as int].id == id@);
                    if self.wf() {
                        let k = event_idx(self@, id@);
                        assert(0 <= k < self@.len() && self@[k].id == id@);
                        assert(k == i);
                    }
                }
                return Some(i);
            }
            i = i + 1;
        }
        None
    }

    /// Read access by identifier.
    pub fn get(&self, id: &String) -> (r: Option<&Event>)
        requires
            self.wf(),
        ensures
            match r {
                Some(e) => has_event(self@, id@) && e@ == event_at(self@, id@),
                None => !has_event(self@, id@),
            },
    {
        match self.find(id) {
            Some(i) => Some(&self.items[i]),
            None => None,
        }
    }

    /// Inserts an event under its identifier, replacing any event already
    /// stored under it.
    pub(crate) fn insert(&mut self, e: Event)
        requires
            old(self).wf(),
            e@.wf(),
        ensures
            final(self).wf(),
            has_event(old(self)@, e@.id) ==> final(self)@ == old(self)@.update(
                event_idx(old(self)@, e@.id),
                e@,
            ),
            !has_event(old(self)@, e@.id) ==> final(self)@ == old(self)@.push(e@),
            has_event(final(self)@, e@.id),
            event_at(final(self)@, e@.id) == e@,
    {
        let ghost pre = self@;
        let found = self.find(&e.id);
        match found {
            Some(i) => {
                proof {
                    assert(pre.update(event_idx(pre, e@.id), e@).len() == pre.len());
                }
                self.items[i] = e;
                proof {
                    assert(final(self)@ =~= pre.update(event_idx(pre, e@.id), e@));
                    lemma_event_found(final(self)@, e@.id, event_idx(pre, e@.id));
                }
            },
            None => {
                self.items.push(e);
                proof {
                    assert(final(self)@ =~= pre.push(e@));
                    lemma_event_found(final(self)@, e@.id, pre.len() as int);
                }
            },
        }
    }
}

/// Proof that a ticket sale was reserved: one capacity unit of the event is
/// held for its bearer while the buyer's payment is in flight.
pub struct SaleReservation {
    pub event_id: String,
    pub organizer: AccountId,
    pub price: u64,
    pub ticket_number: u64,
}

/// Proof that a withdrawal was reserved: `amount` has been taken out of the
/// event's collected funds while the payout is in flight.
pub struct WithdrawReservation {
    pub event_id: String,
    pub organizer: AccountId,
    pub amount: u128,
}

/// Reserving a sale: one more ticket counts as sold.
pub open spec fn reserve_sale_effect(m: EventModel) -> EventModel {
    EventModel { tickets_sold: (m.tickets_sold + 1) as u64, ..m }
}

/// Rolling a sale back: the reserved capacity unit is freed again.
pub open spec fn rollback_sale_effect(m: EventModel) -> EventModel {
    EventModel { tickets_sold: (m.tickets_sold - 1) as u64, ..m }
}

/// Committing a sale: the paid price joins the collected funds.
pub open spec fn commit_sale_effect(m: EventModel) -> EventModel {
    EventModel { funds_collected: (m.funds_collected + m.ticket_price) as u128, ..m }
}

/// Reserving a withdrawal: the amount leaves the collected funds at once.
pub open spec fn reserve_withdrawal_effect(m: EventModel, amount: u128) -> EventModel {
    EventModel {
        funds_collected: (m.funds_collected - amount) as u128,
        funds_withdrawn: (m.funds_withdrawn + amount) as u128,
        ..m
    }
}

/// Rolling a withdrawal back: the amount is re-credited in full.
pub open spec fn rollback_withdrawal_effect(m: EventModel, amount: u128) -> EventModel {
    EventModel {
        funds_collected: (m.funds_collected + amount) as u128,
        funds_withdrawn: (m.funds_withdrawn - amount) as u128,
        ..m
    }
}

/// What holds of the store while a sale reservation is outstanding: the
/// event exists, the token records its price, and at least the bearer's
/// capacity unit is counted in `tickets_sold` but not yet in the funds.
pub open spec fn sale_outstanding(s: Seq<EventModel>, tok: SaleReservation) -> bool {
    &&& has_event(s, tok.event_id@)
    &&& is_ascii_chars(tok.event_id@)
    &&& event_at(s, tok.event_id@).ticket_price == tok.price
    &&& event_at(s, tok.event_id@).tickets_sold >= 1
    &&& event_at(s, tok.event_id@).funds_collected + event_at(s, tok.event_id@).funds_withdrawn
        <= (event_at(s, tok.event_id@).tickets_sold - 1) * event_at(s, tok.event_id@).ticket_price
}

/// What holds of the store while a withdrawal reservation is outstanding:
/// the event exists and the token's amount is counted as withdrawn.
pub open spec fn withdrawal_outstanding(s: Seq<EventModel>, tok: WithdrawReservation) -> bool {
    &&& has_event(s, tok.event_id@)
    &&& is_ascii_chars(tok.event_id@)
    &&& event_at(s, tok.event_id@).funds_withdrawn >= tok.amount
}

/// The sale proceeds of an event fit comfortably below `u128::MAX`.
pub proof fn lemma_sold_price_fits(m: EventModel)
    ensures
        m.tickets_sold * m.ticket_price < u128::MAX,
{
    assert(m.tickets_sold * m.ticket_price <= 0xffff_ffff_ffff_ffffu64
        * 0xffff_ffff_ffff_ffffu64) by (nonlinear_arith)
        requires
            m.tickets_sold <= 0xffff_ffff_ffff_ffffu64,
            m.ticket_price <= 0xffff_ffff_ffff_ffffu64,
    ;
}

impl EventStore {
    /// Reserves one capacity unit of the event: the synchronous first half
    /// of a ticket purchase. The returned token is what the commit or the
    /// rollback after the payment consumes.
    pub(crate) fn reserve_sale(&mut self, id: &String) -> (r: Result<SaleReservation, Error>)
        requires
            old(self).wf(),
        ensures
            final(self).wf(),
            !has_event(old(self)@, id@) ==> (r matches Err(e) && e == Error::EventNotFound
                && final(self)@ == old(self)@),
            has_event(old(self)@, id@) && event_at(old(self)@, id@).tickets_sold
                >= event_at(old(self)@, id@).total_tickets ==> (r matches Err(e)
                && e == Error::SoldOut && final(self)@ == old(self)@),
            has_event(old(self)@, id@) && event_at(old(self)@, id@).tickets_sold
                < event_at(old(self)@, id@).total_tickets ==> (r matches Ok(tok) && {
                let m = event_at(old(self)@, id@);
                &&& tok.event_id@ == id@
                &&& tok.organizer@ == m.organizer
                &&& tok.price == m.ticket_price
                &&& tok.ticket_number == m.tickets_sold + 1
                &&& final(self)@ == old(self)@.update(
                    event_idx(old(self)@, id@),
                    reserve_sale_effect(m),
                )
                &&& sale_outstanding(final(self)@, tok)
            }),
    {
        let found = self.find(id);
        match found {
            None => Err(Error::EventNotFound),
            Some(i) => {
                let ghost pre = self@;
                let ghost m = self@[i as int];
                if self.items[i].tickets_sold >= self.items[i].total_tickets {
                    return Err(Error::SoldOut);
                }
                let organizer = self.items[i].organizer.clone();
                let price = self.items[i].ticket_price;
                let number = self.items[i].tickets_sold + 1;
                let mut c = self.items[i].clone();
                c.tickets_sold = c.tickets_sold + 1;
                proof {
                    assert(c@ =~= reserve_sale_effect(m));
                }
                self.items[i] = c;
                let tok = SaleReservation {
                    event_id: id.clone(),
                    organizer,
                    price,
                    ticket_number: number,
                };
                proof {
                    assert(final(self)@ =~= pre.update(i as int, reserve_sale_effect(m)));
                    assert((m.tickets_sold as int) * m.ticket_price <= (m.tickets_sold + 1)
                        * m.ticket_price) by (nonlinear_arith)
                        requires
                            m.ticket_price >= 0,
                    ;
                    lemma_event_found(final(self)@, id@, i as int);
                }
                Ok(tok)
            },
        }
    }

    /// Commits a reserved sale after the ledger approved the payment:
    /// the paid price joins the collected funds.
    pub(crate) fn commit_sale(&mut self, tok: &SaleReservation)
        requires
            old(self).wf(),
            sale_outstanding(old(self)@, *tok),
        ensures
            final(self).wf(),
            final(self)@ == old(self)@.update(
                event_idx(old(self)@, tok.event_id@),
                commit_sale_effect(event_at(old(self)@, tok.event_id@)),
            ),
    {
        let found = self.find(&tok.event_id);
        match found {
            Some(i) => {
                let ghost pre = self@;
                let ghost m = self@[i as int];
                proof {
                    lemma_sold_price_fits(m);
                    assert((m.tickets_sold - 1) * m.ticket_price + m.ticket_price
                        == (m.tickets_sold as int) * m.ticket_price) by (nonlinear_arith);
                }
                let mut c = self.items[i].clone();
                c.funds_collected = c.funds_collected + (c.ticket_price as u128);
                proof {
                    assert(c@ =~= commit_sale_effect(m));
                }
                self.items[i] = c;
                proof {
                    assert(final(self)@ =~= pre.update(i as int, commit_sale_effect(m)));
                }
            },
            None => {
                proof {
                    assert(false);
                }
            },
        }
    }

    /// Rolls a reserved sale back after the ledger refused the payment:
    /// the held capacity unit is freed; funds are untouched.
    pub(crate) fn rollback_sale(&mut self, tok: &SaleReservation)
        requires
            old(self).wf(),
            sale_outstanding(old(self)@, *tok),
        ensures
            final(self).wf(),
            final(self)@ == old(self)@.update(
                event_idx(old(self)@, tok.event_id@),
                rollback_sale_effect(event_at(old(self)@, tok.event_id@)),
            ),
    {
        let found = self.find(&tok.event_id);
        match found {
            Some(i) => {
                let ghost pre = self@;
                let ghost m = self@[i as int];
                let mut c = self.items[i].clone();
                c.tickets_sold = c.tickets_sold - 1;
                proof {
                    assert(c@ =~= rollback_sale_effect(m));
                }
                self.items[i] = c;
                proof {
                    assert(final(self)@ =~= pre.update(i as int, rollback_sale_effect(m)));
                }
            },
            None => {
                proof {
                    assert(false);
                }
            },
        }
    }

    /// Reserves a withdrawal: the amount leaves the collected funds before
    /// the payout suspends, so a second withdrawal sees the reduced balance.
    pub(crate) fn reserve_withdrawal(&mut self, id: &String, amount: u128) -> (r: Result<
        WithdrawReservation,
        Error,
    >)
        requires
            old(self).wf(),
        ensures
            final(self).wf(),
            !has_event(old(self)@, id@) ==> (r matches Err(e) && e == Error::EventNotFound
                && final(self)@ == old(self)@),
            has_event(old(self)@, id@) && amount > event_at(old(self)@, id@).funds_collected
                ==> (r matches Err(e) && e == Error::InsufficientFunds && final(self)@
                == old(self)@),
            has_event(old(self)@, id@) && amount <= event_at(old(self)@, id@).funds_collected
                ==> (r matches Ok(tok) && {
                let m = event_at(old(self)@, id@);
                &&& tok.event_id@ == id@
                &&& tok.organizer@ == m.organizer
                &&& tok.amount == amount
                &&& final(self)@ == old(self)@.update(
                    event_idx(old(self)@, id@),
                    reserve_withdrawal_effect(m, amount),
                )
                &&& withdrawal_outstanding(final(self)@, tok)
            }),
    {
        let found = self.find(id);
        match found {
            None => Err(Error::EventNotFound),
            Some(i) => {
                let ghost pre = self@;
                let ghost m = self@[i as int];
                if amount > self.items[i].funds_collected {
                    return Err(Error::InsufficientFunds);
                }
                proof {
                    lemma_sold_price_fits(m);
                }
                let organizer = self.items[i].organizer.clone();
                let mut c = self.items[i].clone();
                c.funds_collected = c.funds_collected - amount;
                c.funds_withdrawn = c.funds_withdrawn + amount;
                proof {
                    assert(c@ =~= reserve_withdrawal_effect(m, amount));
                }
                self.items[i] = c;
                let tok = WithdrawReservation { event_id: id.clone(), organizer, amount };
                proof {
                    assert(final(self)@ =~= pre.update(
                        i as int,
                        reserve_withdrawal_effect(m, amount),
                    ));
                    lemma_event_found(final(self)@, id@, i as int);
                }
                Ok(tok)
            },
        }
    }

    /// Takes an event back into the store at the persistence boundary: after
    /// a restore from durable storage the record is held to the event
    /// invariant before it re-enters, bit-for-bit unchanged.
    pub fn restore(&mut self, e: Event) -> (r: Result<(), Error>)
        requires
            old(self).wf(),
            encode_utf8(e.name@).len() <= usize::MAX,
        ensures
            final(self).wf(),
            !e@.wf() ==> (r matches Err(err) && err == Error::InvalidEvent && final(self)@
                == old(self)@),
            e@.wf() ==> (r matches Ok(_) && {
                &&& has_event(old(self)@, e@.id) ==> final(self)@ == old(self)@.update(
                    event_idx(old(self)@, e@.id),
                    e@,
                )
                &&& !has_event(old(self)@, e@.id) ==> final(self)@ == old(self)@.push(e@)
            }),
    {
        let len = e.name.as_str().len();
        let name_ok = 1 <= len && len <= 100;
        let total_ok = e.total_tickets >= 1;
        let sold_ok = e.tickets_sold <= e.total_tickets;
        proof {
            assert((e.tickets_sold as int) * (e.ticket_price as int) <= 0xffff_ffff_ffff_ffffu64
                * 0xffff_ffff_ffff_ffffu64) by (nonlinear_arith)
                requires
                    e.tickets_sold <= 0xffff_ffff_ffff_ffffu64,
                    e.ticket_price <= 0xffff_ffff_ffff_ffffu64,
            ;
        }
        let cap: u128 = (e.tickets_sold as u128) * (e.ticket_price as u128);
        let funds_ok = e.funds_collected <= cap && e.funds_withdrawn <= cap - e.funds_collected;
        let mult_ok = match &e.max_resale_multiplier {
            None => true,
            Some(m) => m.num >= 1 && m.den >= 1,
        };
        let id_ok = e.id.as_str().is_ascii();
        if name_ok && total_ok && sold_ok && funds_ok && mult_ok && id_ok {
            self.insert(e);
            Ok(())
        } else {
            Err(Error::InvalidEvent)
        }
    }

    /// Rolls a reserved withdrawal back after the ledger refused the
    /// payout: the amount is re-credited in full.
    pub(crate) fn rollback_withdrawal(&mut self, tok: &WithdrawReservation)
        requires
            old(self).wf(),
            withdrawal_outstanding(old(self)@, *tok),
        ensures
            final(self).wf(),
            final(self)@ == old(self)@.update(
                event_idx(old(self)@, tok.event_id@),
                rollback_withdrawal_effect(event_at(old(self)@, tok.event_id@), tok.amount),
            ),
    {
        let found = self.find(&tok.event_id);
        match found {
            Some(i) => {
                let ghost pre = self@;
                let ghost m = self@[i as int];
                proof {
                    lemma_sold_price_fits(m);
                }
                let mut c = self.items[i].clone();
                c.funds_collected = c.funds_collected + tok.amount;
                c.funds_withdrawn = c.funds_withdrawn - tok.amount;
                proof {
                    assert(c@ =~= rollback_withdrawal_effect(m, tok.amount));
                }
                self.items[i] = c;
                proof {
                    assert(final(self)@ =~= pre.update(
                        i as int,
                        rollback_withdrawal_effect(m, tok.amount),
                    ));
                }
            },
            None => {
                proof {
                    assert(false);
                }
            },
        }
    }
}

/// When identifiers are unique and position `i` holds identifier `id`,
/// lookup by `id` lands on `i`.
pub proof fn lemma_event_found(s: Seq<EventModel>, id: Seq<char>, i: int)
    requires
        forall|p: int, q: int| 0 <= p < q < s.len() ==> s[p].id != s[q].id,
        0 <= i < s.len(),
        s[i].id == id,
    ensures
        has_event(s, id),
        event_idx(s, id) == i,
        event_at(s, id) == s[i],
{
    assert(has_event(s, id));
    let k = event_idx(s, id);
    assert(0 <= k < s.len() && s[k].id == id);
    if k < i {
        assert(s[k].id != s[i].id);
    } else if i < k {
        assert(s[i].id != s[k].id);
    }
}

} // verus!
