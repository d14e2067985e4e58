//! The governing properties of the reservation protocol, stated and
//! proved once, for every state and every interleaving of operations.

use vstd::prelude::*;

use crate::events::EventModel;
use crate::events::commit_sale_effect;
use crate::events::reserve_sale_effect;
use crate::events::reserve_withdrawal_effect;
use crate::events::rollback_sale_effect;
use crate::events::rollback_withdrawal_effect;
use crate::events::lemma_sold_price_fits;
use crate::tickets::TicketModel;
use crate::tickets::transfer_effect;

verus! {

/// A purchase whose payment fails has no net effect on the event:
/// rolling the capacity reservation back restores the state exactly as
/// it was before the reservation was taken.
pub proof fn lemma_failed_purchase_net_zero(m: EventModel)
    requires
        m.wf(),
        m.tickets_sold < m.total_tickets,
    ensures
        rollback_sale_effect(reserve_sale_effect(m)) == m,
{
    assert(rollback_sale_effect(reserve_sale_effect(m)) =~= m);
}

/// A withdrawal whose payout fails has no net effect on the event:
/// re-crediting the reserved amount restores `funds_collected` and
/// `funds_withdrawn` exactly as they were.
pub proof fn lemma_failed_withdrawal_net_zero(m: EventModel, amount: u128)
    requires
        m.wf(),
        amount <= m.funds_collected,
    ensures
        rollback_withdrawal_effect(reserve_withdrawal_effect(m, amount), amount) == m,
{
    lemma_sold_price_fits(m);
    assert(rollback_withdrawal_effect(reserve_withdrawal_effect(m, amount), amount) =~= m);
}

/// The funds available for withdrawal never exceed the proceeds of the
/// sales counted so far minus everything already reserved or committed
/// for withdrawal.
pub proof fn lemma_funds_bounded(m: EventModel)
    requires
        m.wf(),
    ensures
        m.funds_collected <= m.tickets_sold * m.ticket_price - m.funds_withdrawn,
{
}

/// A ticket's transfer history is never rewritten, only appended to, and
/// after every transfer its last entry names the ticket's current owner.
pub proof fn lemma_transfer_appends(t: TicketModel, now: u64, new_owner: Seq<u8>)
    ensures
        transfer_effect(t, now, new_owner).transfer_history == t.transfer_history.push(
            (now, new_owner),
        ),
        t.transfer_history.is_prefix_of(transfer_effect(t, now, new_owner).transfer_history),
        transfer_effect(t, now, new_owner).transfer_history.last().1 == transfer_effect(
            t,
            now,
            new_owner,
        ).owner,
{
    assert(t.transfer_history.is_prefix_of(t.transfer_history.push((now, new_owner))));
}

/// On any well-formed ticket the history holds at least the mint entry
/// and its last entry names the current owner.
pub proof fn lemma_history_last_is_owner(t: TicketModel)
    requires
        t.wf(),
    ensures
        t.transfer_history.len() >= 1,
        t.transfer_history.last().1 == t.owner,
{
}

/// One event's purchase protocol, summed up: how many payments are in
/// flight (reserved, not yet resolved) and how many tickets were minted.
pub ghost struct PurchaseTally {
    pub event: EventModel,
    pub pending: nat,
    pub minted: nat,
}

/// One synchronous segment of a purchase: taking the reservation,
/// committing it after an approved payment, or rolling it back after a
/// refused one.
pub enum PurchaseStep {
    Reserve,
    Commit,
    Rollback,
}

/// When a segment may run: a reservation needs free capacity; a commit or
/// rollback needs a payment in flight.
pub open spec fn step_allowed(t: PurchaseTally, s: PurchaseStep) -> bool {
    match s {
        PurchaseStep::Reserve => t.event.tickets_sold < t.event.total_tickets,
        PurchaseStep::Commit => t.pending >= 1,
        PurchaseStep::Rollback => t.pending >= 1,
    }
}

/// What a segment does, in terms of the same effects the executable
/// operations are specified by.
pub open spec fn step_apply(t: PurchaseTally, s: PurchaseStep) -> PurchaseTally {
    match s {
        PurchaseStep::Reserve => PurchaseTally {
            event: reserve_sale_effect(t.event),
            pending: t.pending + 1,
            minted: t.minted,
        },
        PurchaseStep::Commit => PurchaseTally {
            event: commit_sale_effect(t.event),
            pending: (t.pending - 1) as nat,
            minted: t.minted + 1,
        },
        PurchaseStep::Rollback => PurchaseTally {
            event: rollback_sale_effect(t.event),
            pending: (t.pending - 1) as nat,
            minted: t.minted,
        },
    }
}

/// Runs a sequence of segments from a starting tally.
pub open spec fn run_steps(t: PurchaseTally, steps: Seq<PurchaseStep>) -> PurchaseTally
    decreases steps.len(),
{
    if steps.len() == 0 {
        t
    } else {
        step_apply(run_steps(t, steps.drop_last()), steps.last())
    }
}

/// Every segment of the sequence runs only when it is allowed.
pub open spec fn steps_allowed(t: PurchaseTally, steps: Seq<PurchaseStep>) -> bool
    decreases steps.len(),
{
    if steps.len() == 0 {
        true
    } else {
        steps_allowed(t, steps.drop_last()) && step_allowed(
            run_steps(t, steps.drop_last()),
            steps.last(),
        )
    }
}

/// The protocol invariant: every mint and every in-flight payment is
/// covered by a counted capacity unit, and the count never exceeds the
/// capacity.
pub open spec fn tally_inv(t: PurchaseTally) -> bool {
    &&& t.minted + t.pending <= t.event.tickets_sold
    &&& t.event.tickets_sold <= t.event.total_tickets
}

/// Each allowed segment preserves the protocol invariant and the
/// capacity.
pub proof fn lemma_step_preserves_tally(t: PurchaseTally, s: PurchaseStep)
    requires
        tally_inv(t),
        step_allowed(t, s),
    ensures
        tally_inv(step_apply(t, s)),
        step_apply(t, s).event.total_tickets == t.event.total_tickets,
{
}

/// Running any allowed sequence preserves the protocol invariant and the
/// capacity.
pub proof fn lemma_run_preserves_tally(t: PurchaseTally, steps: Seq<PurchaseStep>)
    requires
        tally_inv(t),
        steps_allowed(t, steps),
    ensures
        tally_inv(run_steps(t, steps)),
        run_steps(t, steps).event.total_tickets == t.event.total_tickets,
    decreases steps.len(),
{
    if steps.len() > 0 {
        lemma_run_preserves_tally(t, steps.drop_last());
        lemma_step_preserves_tally(run_steps(t, steps.drop_last()), steps.last());
    }
}

/// For every sequence of purchase attempts against an event, however many
/// payment failures are interleaved and in whatever order the payments
/// resolve, the number of tickets ever minted never exceeds the event's
/// capacity.
pub proof fn lemma_no_oversell(t: PurchaseTally, steps: Seq<PurchaseStep>)
    requires
        tally_inv(t),
        steps_allowed(t, steps),
    ensures
        run_steps(t, steps).minted <= t.event.total_tickets,
{
    lemma_run_preserves_tally(t, steps);
}

} // verus!
