use ticket_market::account::AccountId;
use ticket_market::engine::begin_purchase;
use ticket_market::engine::begin_transfer;
use ticket_market::engine::begin_withdrawal;
use ticket_market::engine::create_event;
use ticket_market::engine::finish_purchase;
use ticket_market::engine::finish_transfer;
use ticket_market::engine::finish_withdrawal;
use ticket_market::engine::resale_cap;
use ticket_market::engine::validate_event_inputs;
use ticket_market::errors::Error;
use ticket_market::errors::TransferError;
use ticket_market::events::Event;
use ticket_market::events::EventStore;
use ticket_market::events::ResaleMultiplier;
use ticket_market::queries::get_event;
use ticket_market::queries::get_events_by_organizer;
use ticket_market::queries::get_ticket;
use ticket_market::queries::get_tickets_by_owner;
use ticket_market::queries::icrc7_metadata;
use ticket_market::queries::icrc7_owner_of;
use ticket_market::queries::icrc7_transfer_history;
use ticket_market::tickets::TicketStore;

fn acct(n: u8) -> AccountId {
    AccountId::new(vec![n, n, n])
}

fn entropy(seed: u8) -> Vec<u8> {
    vec![seed; 32]
}

const NOW: u64 = 1_000;
const FUTURE: u64 = 2_000;

fn make_event(
    events: &mut EventStore,
    seed: u8,
    organizer: &AccountId,
    price: u64,
    total: u64,
    mult: Option<ResaleMultiplier>,
    whitelist: Option<Vec<AccountId>>,
) -> String {
    create_event(
        events,
        "Gig".to_string(),
        FUTURE,
        "Hall".to_string(),
        price,
        total,
        mult,
        whitelist,
        organizer.clone(),
        NOW,
        &entropy(seed),
    )
    .unwrap()
}

fn buy(
    events: &mut EventStore,
    tickets: &mut TicketStore,
    id: &String,
    buyer: &AccountId,
    approve: bool,
) -> Result<u64, Error> {
    let res = begin_purchase(events, id, buyer)?;
    let outcome = if approve {
        Ok(7u128)
    } else {
        Err(TransferError::TxCreatedInFuture)
    };
    finish_purchase(events, tickets, res, buyer.clone(), NOW, outcome)
}

fn stored(events: &EventStore, id: &String) -> Event {
    get_event(events, id).unwrap()
}

#[test]
fn create_event_returns_hex_of_entropy() {
    let mut events = EventStore::new();
    let organizer = acct(1);
    let e: Vec<u8> = (0u8..32).collect();
    let id = create_event(
        &mut events,
        "Gig".to_string(),
        FUTURE,
        "Hall".to_string(),
        100,
        10,
        None,
        None,
        organizer.clone(),
        NOW,
        &e,
    )
    .unwrap();
    assert_eq!(id, "000102030405060708090a0b0c0d0e0f".to_string());
    let ev = stored(&events, &id);
    assert_eq!(ev.name, "Gig".to_string());
    assert_eq!(ev.location, "Hall".to_string());
    assert_eq!(ev.date, FUTURE);
    assert!(ev.organizer == organizer);
    assert_eq!(ev.ticket_price, 100);
    assert_eq!(ev.total_tickets, 10);
    assert_eq!(ev.tickets_sold, 0);
    assert_eq!(ev.funds_collected, 0);
    assert_eq!(ev.funds_withdrawn, 0);
}

#[test]
fn create_event_rejects_bad_inputs() {
    let mut events = EventStore::new();
    let org = acct(1);
    let r = create_event(
        &mut events,
        "".to_string(),
        FUTURE,
        "Hall".to_string(),
        100,
        10,
        None,
        None,
        org.clone(),
        NOW,
        &entropy(1),
    );
    assert!(matches!(r, Err(Error::InvalidName)));
    let long: String = std::iter::repeat('x').take(101).collect();
    let r = create_event(
        &mut events,
        long,
        FUTURE,
        "Hall".to_string(),
        100,
        10,
        None,
        None,
        org.clone(),
        NOW,
        &entropy(1),
    );
    assert!(matches!(r, Err(Error::InvalidName)));
    let r = create_event(
        &mut events,
        "Gig".to_string(),
        NOW,
        "Hall".to_string(),
        100,
        10,
        None,
        None,
        org.clone(),
        NOW,
        &entropy(1),
    );
    assert!(matches!(r, Err(Error::DateNotFuture)));
    let r = create_event(
        &mut events,
        "Gig".to_string(),
        FUTURE,
        "Hall".to_string(),
        100,
        0,
        None,
        None,
        org.clone(),
        NOW,
        &entropy(1),
    );
    assert!(matches!(r, Err(Error::NoTickets)));
    assert_eq!(events.len(), 0);
}

#[test]
fn validate_matches_create() {
    assert!(matches!(
        validate_event_inputs(&"".to_string(), FUTURE, 1, NOW),
        Err(Error::InvalidName)
    ));
    assert!(matches!(
        validate_event_inputs(&"Gig".to_string(), NOW, 1, NOW),
        Err(Error::DateNotFuture)
    ));
    assert!(matches!(
        validate_event_inputs(&"Gig".to_string(), FUTURE, 0, NOW),
        Err(Error::NoTickets)
    ));
    assert!(validate_event_inputs(&"Gig".to_string(), FUTURE, 1, NOW).is_ok());
}

#[test]
fn purchase_mints_first_ticket() {
    let mut events = EventStore::new();
    let mut tickets = TicketStore::new();
    let org = acct(1);
    let buyer = acct(2);
    let id = make_event(
        &mut events,
        7,
        &org,
        100,
        10,
        Some(ResaleMultiplier { num: 3, den: 2 }),
        None,
    );
    let n = buy(&mut events, &mut tickets, &id, &buyer, true).unwrap();
    assert_eq!(n, 1);
    let ev = stored(&events, &id);
    assert_eq!(ev.tickets_sold, 1);
    assert_eq!(ev.funds_collected, 100);
    let t = get_ticket(&tickets, &id, 1).unwrap();
    assert!(t.owner == buyer);
    assert_eq!(t.original_price, 100);
    assert_eq!(t.metadata.event_id, id);
    assert_eq!(t.transfer_history.len(), 1);
    assert_eq!(t.transfer_history[0].0, NOW);
    assert!(t.transfer_history[0].1 == buyer);
    assert!(!t.in_flight);
}

#[test]
fn purchase_unknown_event_is_not_found() {
    let mut events = EventStore::new();
    let r = begin_purchase(&mut events, &"nope".to_string(), &acct(2));
    assert!(matches!(r, Err(Error::EventNotFound)));
}

#[test]
fn whitelist_gates_purchases() {
    let mut events = EventStore::new();
    let mut tickets = TicketStore::new();
    let org = acct(1);
    let member = acct(2);
    let outsider = acct(3);
    let id = make_event(
        &mut events,
        7,
        &org,
        100,
        10,
        None,
        Some(vec![member.clone()]),
    );
    let r = buy(&mut events, &mut tickets, &id, &outsider, true);
    assert!(matches!(r, Err(Error::NotWhitelisted)));
    assert_eq!(stored(&events, &id).tickets_sold, 0);
    let n = buy(&mut events, &mut tickets, &id, &member, true).unwrap();
    assert_eq!(n, 1);
}

#[test]
fn oversell_race_exactly_one_succeeds() {
    let mut events = EventStore::new();
    let mut tickets = TicketStore::new();
    let org = acct(1);
    let alice = acct(2);
    let bob = acct(3);
    let id = make_event(&mut events, 7, &org, 100, 1, None, None);
    // Both begin before either payment resolves.
    let res_a = begin_purchase(&mut events, &id, &alice).unwrap();
    let r_b = begin_purchase(&mut events, &id, &bob);
    assert!(matches!(r_b, Err(Error::SoldOut)));
    let n = finish_purchase(&mut events, &mut tickets, res_a, alice.clone(), NOW, Ok(7)).unwrap();
    assert_eq!(n, 1);
    assert_eq!(stored(&events, &id).tickets_sold, 1);
}

#[test]
fn oversell_race_failed_payment_frees_the_slot() {
    let mut events = EventStore::new();
    let mut tickets = TicketStore::new();
    let org = acct(1);
    let alice = acct(2);
    let bob = acct(3);
    let id = make_event(&mut events, 7, &org, 100, 1, None, None);
    let res_a = begin_purchase(&mut events, &id, &alice).unwrap();
    assert!(matches!(
        begin_purchase(&mut events, &id, &bob),
        Err(Error::SoldOut)
    ));
    // Alice's payment fails: the reservation rolls back in full.
    let r = finish_purchase(
        &mut events,
        &mut tickets,
        res_a,
        alice.clone(),
        NOW,
        Err(TransferError::InsufficientFunds { balance: 1 }),
    );
    assert!(matches!(
        r,
        Err(Error::Payment(TransferError::InsufficientFunds { balance: 1 }))
    ));
    let ev = stored(&events, &id);
    assert_eq!(ev.tickets_sold, 0);
    assert_eq!(ev.funds_collected, 0);
    assert!(matches!(get_ticket(&tickets, &id, 1), Err(Error::TicketNotFound)));
    // The slot is free again: Bob succeeds and gets ticket 1.
    let n = buy(&mut events, &mut tickets, &id, &bob, true).unwrap();
    assert_eq!(n, 1);
    let t = get_ticket(&tickets, &id, 1).unwrap();
    assert!(t.owner == bob);
}

#[test]
fn purchase_payment_args_are_exact() {
    let mut events = EventStore::new();
    let org = acct(1);
    let buyer = acct(2);
    let id = make_event(&mut events, 9, &org, 100, 10, None, None);
    let res = begin_purchase(&mut events, &id, &buyer).unwrap();
    let args = res.payment_args(NOW);
    assert!(args.to == org);
    assert_eq!(args.amount, 100u128);
    assert_eq!(args.fee, 10_000);
    assert_eq!(args.memo, id.as_bytes().to_vec());
    assert!(args.from_subaccount.is_none());
    assert_eq!(args.created_at_time, Some(NOW));
}

#[test]
fn gift_transfer_updates_owner_and_history() {
    let mut events = EventStore::new();
    let mut tickets = TicketStore::new();
    let org = acct(1);
    let alice = acct(2);
    let bob = acct(3);
    let id = make_event(&mut events, 7, &org, 100, 10, None, None);
    buy(&mut events, &mut tickets, &id, &alice, true).unwrap();
    let plan = begin_transfer(&mut tickets, &events, &id, 1, &alice, None).unwrap();
    assert!(plan.payment.is_none());
    let later: u64 = NOW + 5;
    finish_transfer(&mut tickets, plan, bob.clone(), later, None).unwrap();
    let owner = icrc7_owner_of(&tickets, &id, 1).unwrap();
    assert!(owner == bob);
    let h = icrc7_transfer_history(&tickets, &id, 1).unwrap();
    assert_eq!(h.len(), 2);
    assert_eq!(h[1].0, later);
    assert!(h[1].1 == bob);
    assert!(h[0].1 == alice);
}

#[test]
fn resale_cap_formula_is_exact() {
    assert_eq!(resale_cap(100, &ResaleMultiplier { num: 3, den: 2 }), 150);
    assert_eq!(resale_cap(101, &ResaleMultiplier { num: 3, den: 2 }), 152);
    assert_eq!(resale_cap(100, &ResaleMultiplier { num: 1, den: 3 }), 33);
    assert_eq!(resale_cap(1, &ResaleMultiplier { num: 1, den: 2 }), 1);
    assert_eq!(resale_cap(0, &ResaleMultiplier { num: 3, den: 2 }), 0);
}

#[test]
fn resale_above_cap_is_rejected() {
    let mut events = EventStore::new();
    let mut tickets = TicketStore::new();
    let org = acct(1);
    let alice = acct(2);
    let id = make_event(
        &mut events,
        7,
        &org,
        100,
        10,
        Some(ResaleMultiplier { num: 3, den: 2 }),
        None,
    );
    buy(&mut events, &mut tickets, &id, &alice, true).unwrap();
    let r = begin_transfer(&mut tickets, &events, &id, 1, &alice, Some(151));
    match r {
        Err(Error::PriceExceedsCap { max_price }) => assert_eq!(max_price, 150),
        _ => panic!("resale above the cap was not rejected"),
    }
    let owner = icrc7_owner_of(&tickets, &id, 1).unwrap();
    assert!(owner == alice);
}

#[test]
fn resale_at_cap_is_accepted() {
    let mut events = EventStore::new();
    let mut tickets = TicketStore::new();
    let org = acct(1);
    let alice = acct(2);
    let bob = acct(3);
    let id = make_event(
        &mut events,
        7,
        &org,
        100,
        10,
        Some(ResaleMultiplier { num: 3, den: 2 }),
        None,
    );
    buy(&mut events, &mut tickets, &id, &alice, true).unwrap();
    let plan = begin_transfer(&mut tickets, &events, &id, 1, &alice, Some(150)).unwrap();
    assert_eq!(plan.payment, Some(150));
    let args = plan.payment_args(NOW);
    assert!(args.to == alice);
    assert_eq!(args.amount, 150u128);
    assert_eq!(args.memo, b"resale-1".to_vec());
    finish_transfer(&mut tickets, plan, bob.clone(), NOW + 1, Some(Ok(8))).unwrap();
    let owner = icrc7_owner_of(&tickets, &id, 1).unwrap();
    assert!(owner == bob);
    assert_eq!(icrc7_transfer_history(&tickets, &id, 1).unwrap().len(), 2);
}

#[test]
fn resale_without_multiplier_admits_any_price() {
    let mut events = EventStore::new();
    let mut tickets = TicketStore::new();
    let org = acct(1);
    let alice = acct(2);
    let id = make_event(&mut events, 7, &org, 100, 10, None, None);
    buy(&mut events, &mut tickets, &id, &alice, true).unwrap();
    let plan = begin_transfer(&mut tickets, &events, &id, 1, &alice, Some(1_000_000)).unwrap();
    assert_eq!(plan.payment, Some(1_000_000));
}

#[test]
fn resale_payment_failure_keeps_ownership() {
    let mut events = EventStore::new();
    let mut tickets = TicketStore::new();
    let org = acct(1);
    let alice = acct(2);
    let bob = acct(3);
    let id = make_event(&mut events, 7, &org, 100, 10, None, None);
    buy(&mut events, &mut tickets, &id, &alice, true).unwrap();
    let plan = begin_transfer(&mut tickets, &events, &id, 1, &alice, Some(120)).unwrap();
    let r = finish_transfer(
        &mut tickets,
        plan,
        bob.clone(),
        NOW + 1,
        Some(Err(TransferError::BadFee { expected_fee: 10_000 })),
    );
    assert!(matches!(
        r,
        Err(Error::Payment(TransferError::BadFee { expected_fee: 10_000 }))
    ));
    let t = get_ticket(&tickets, &id, 1).unwrap();
    assert!(t.owner == alice);
    assert_eq!(t.transfer_history.len(), 1);
    assert!(!t.in_flight);
    // The mark is cleared: a new resale can begin.
    let again = begin_transfer(&mut tickets, &events, &id, 1, &alice, Some(120));
    assert!(again.is_ok());
}

#[test]
fn resale_in_flight_blocks_second_transfer() {
    let mut events = EventStore::new();
    let mut tickets = TicketStore::new();
    let org = acct(1);
    let alice = acct(2);
    let id = make_event(&mut events, 7, &org, 100, 10, None, None);
    buy(&mut events, &mut tickets, &id, &alice, true).unwrap();
    let _plan = begin_transfer(&mut tickets, &events, &id, 1, &alice, Some(120)).unwrap();
    let second = begin_transfer(&mut tickets, &events, &id, 1, &alice, Some(110));
    assert!(matches!(second, Err(Error::TransferInFlight)));
    let gift = begin_transfer(&mut tickets, &events, &id, 1, &alice, None);
    assert!(matches!(gift, Err(Error::TransferInFlight)));
}

#[test]
fn transfer_authorization_and_lookup_errors() {
    let mut events = EventStore::new();
    let mut tickets = TicketStore::new();
    let org = acct(1);
    let alice = acct(2);
    let mallory = acct(4);
    let id = make_event(&mut events, 7, &org, 100, 10, None, None);
    buy(&mut events, &mut tickets, &id, &alice, true).unwrap();
    let r = begin_transfer(&mut tickets, &events, &id, 1, &mallory, None);
    assert!(matches!(r, Err(Error::NotTicketOwner)));
    let r = begin_transfer(&mut tickets, &events, &id, 99, &alice, None);
    assert!(matches!(r, Err(Error::TicketNotFound)));
}

#[test]
fn withdrawal_reserves_and_commits() {
    let mut events = EventStore::new();
    let mut tickets = TicketStore::new();
    let org = acct(1);
    let buyer = acct(2);
    let id = make_event(&mut events, 7, &org, 100, 10, None, None);
    buy(&mut events, &mut tickets, &id, &buyer, true).unwrap();
    let res = begin_withdrawal(&mut events, &id, &org, 60).unwrap();
    // The amount left the balance before the payout suspends.
    assert_eq!(stored(&events, &id).funds_collected, 40);
    let args = res.payment_args(NOW);
    assert!(args.to == org);
    assert_eq!(args.amount, 60u128);
    let mut memo = b"withdraw-".to_vec();
    memo.extend_from_slice(id.as_bytes());
    assert_eq!(args.memo, memo);
    finish_withdrawal(&mut events, res, Ok(9)).unwrap();
    let ev = stored(&events, &id);
    assert_eq!(ev.funds_collected, 40);
    assert_eq!(ev.funds_withdrawn, 60);
}

#[test]
fn withdrawal_over_balance_is_rejected_before_any_payment() {
    let mut events = EventStore::new();
    let mut tickets = TicketStore::new();
    let org = acct(1);
    let buyer = acct(2);
    let id = make_event(&mut events, 7, &org, 100, 10, None, None);
    buy(&mut events, &mut tickets, &id, &buyer, true).unwrap();
    // No reservation is taken, so no ledger call is owed.
    let r = begin_withdrawal(&mut events, &id, &org, 200);
    assert!(matches!(r, Err(Error::InsufficientFunds)));
    let ev = stored(&events, &id);
    assert_eq!(ev.funds_collected, 100);
    assert_eq!(ev.funds_withdrawn, 0);
}

#[test]
fn withdrawal_failure_restores_the_balance() {
    let mut events = EventStore::new();
    let mut tickets = TicketStore::new();
    let org = acct(1);
    let buyer = acct(2);
    let id = make_event(&mut events, 7, &org, 100, 10, None, None);
    buy(&mut events, &mut tickets, &id, &buyer, true).unwrap();
    let res = begin_withdrawal(&mut events, &id, &org, 60).unwrap();
    assert_eq!(stored(&events, &id).funds_collected, 40);
    let r = finish_withdrawal(
        &mut events,
        res,
        Err(TransferError::TxTooOld { allowed_window_nanos: 1 }),
    );
    assert!(matches!(
        r,
        Err(Error::Payment(TransferError::TxTooOld { allowed_window_nanos: 1 }))
    ));
    let ev = stored(&events, &id);
    assert_eq!(ev.funds_collected, 100);
    assert_eq!(ev.funds_withdrawn, 0);
}

#[test]
fn withdrawal_requires_the_organizer() {
    let mut events = EventStore::new();
    let mut tickets = TicketStore::new();
    let org = acct(1);
    let buyer = acct(2);
    let id = make_event(&mut events, 7, &org, 100, 10, None, None);
    buy(&mut events, &mut tickets, &id, &buyer, true).unwrap();
    let r = begin_withdrawal(&mut events, &id, &buyer, 10);
    assert!(matches!(r, Err(Error::NotOrganizer)));
    let r = begin_withdrawal(&mut events, &"nope".to_string(), &org, 10);
    assert!(matches!(r, Err(Error::EventNotFound)));
}

#[test]
fn queries_filter_by_organizer_and_owner() {
    let mut events = EventStore::new();
    let mut tickets = TicketStore::new();
    let org_a = acct(1);
    let org_b = acct(2);
    let buyer = acct(3);
    let id_a = make_event(&mut events, 5, &org_a, 100, 10, None, None);
    let id_b = make_event(&mut events, 6, &org_b, 200, 10, None, None);
    let _id_c = make_event(&mut events, 8, &org_a, 300, 10, None, None);
    let of_a = get_events_by_organizer(&events, &org_a);
    assert_eq!(of_a.len(), 2);
    assert_eq!(of_a[0].id, id_a);
    let of_b = get_events_by_organizer(&events, &org_b);
    assert_eq!(of_b.len(), 1);
    assert_eq!(of_b[0].id, id_b);
    buy(&mut events, &mut tickets, &id_a, &buyer, true).unwrap();
    let owned = get_tickets_by_owner(&tickets, &buyer);
    assert_eq!(owned.len(), 1);
    assert_eq!(owned[0].id, 1);
    assert_eq!(get_tickets_by_owner(&tickets, &org_a).len(), 0);
    let md = icrc7_metadata(&tickets, &id_a, 1).unwrap();
    assert_eq!(md.event_id, id_a);
    assert!(md.seat.is_none() && md.tier.is_none() && md.image_url.is_none());
}

#[test]
fn two_events_number_tickets_independently() {
    let mut events = EventStore::new();
    let mut tickets = TicketStore::new();
    let org = acct(1);
    let alice = acct(2);
    let bob = acct(3);
    let id_a = make_event(&mut events, 5, &org, 100, 10, None, None);
    let id_b = make_event(&mut events, 6, &org, 200, 10, None, None);
    assert_eq!(buy(&mut events, &mut tickets, &id_a, &alice, true).unwrap(), 1);
    // The second event's first sale also mints number 1, without touching
    // the first event's ticket.
    assert_eq!(buy(&mut events, &mut tickets, &id_b, &bob, true).unwrap(), 1);
    assert_eq!(tickets.len(), 2);
    let ta = get_ticket(&tickets, &id_a, 1).unwrap();
    assert!(ta.owner == alice);
    assert_eq!(ta.metadata.event_id, id_a);
    assert_eq!(ta.original_price, 100);
    let tb = get_ticket(&tickets, &id_b, 1).unwrap();
    assert!(tb.owner == bob);
    assert_eq!(tb.metadata.event_id, id_b);
    assert_eq!(tb.original_price, 200);
}

#[test]
fn create_event_rejects_duplicate_identifier() {
    let mut events = EventStore::new();
    let org = acct(1);
    let id = make_event(&mut events, 7, &org, 100, 10, None, None);
    let again = create_event(
        &mut events,
        "Encore".to_string(),
        FUTURE,
        "Hall".to_string(),
        500,
        3,
        None,
        None,
        org.clone(),
        NOW,
        &entropy(7),
    );
    assert!(matches!(again, Err(Error::DuplicateEventId)));
    assert_eq!(events.len(), 1);
    let ev = stored(&events, &id);
    assert_eq!(ev.name, "Gig".to_string());
    assert_eq!(ev.ticket_price, 100);
    assert_eq!(ev.total_tickets, 10);
}

#[test]
fn restore_round_trips_saved_state() {
    let mut events = EventStore::new();
    let mut tickets = TicketStore::new();
    let org = acct(1);
    let buyer = acct(2);
    let id = make_event(&mut events, 7, &org, 100, 10, None, None);
    buy(&mut events, &mut tickets, &id, &buyer, true).unwrap();
    let saved_event = stored(&events, &id);
    let saved_ticket = get_ticket(&tickets, &id, 1).unwrap();
    let mut events2 = EventStore::new();
    let mut tickets2 = TicketStore::new();
    events2.restore(saved_event).unwrap();
    tickets2.restore(saved_ticket).unwrap();
    let ev = stored(&events2, &id);
    assert_eq!(ev.tickets_sold, 1);
    assert_eq!(ev.funds_collected, 100);
    let t = get_ticket(&tickets2, &id, 1).unwrap();
    assert!(t.owner == buyer);
    assert_eq!(t.transfer_history.len(), 1);
}

#[test]
fn restore_rejects_corrupt_records() {
    let mut events = EventStore::new();
    let mut tickets = TicketStore::new();
    let org = acct(1);
    let buyer = acct(2);
    let id = make_event(&mut events, 7, &org, 100, 10, None, None);
    buy(&mut events, &mut tickets, &id, &buyer, true).unwrap();
    let mut bad_event = stored(&events, &id);
    bad_event.tickets_sold = bad_event.total_tickets + 1;
    let mut events2 = EventStore::new();
    assert!(matches!(
        events2.restore(bad_event),
        Err(Error::InvalidEvent)
    ));
    assert_eq!(events2.len(), 0);
    let mut bad_ticket = get_ticket(&tickets, &id, 1).unwrap();
    bad_ticket.transfer_history.clear();
    let mut tickets2 = TicketStore::new();
    assert!(matches!(
        tickets2.restore(bad_ticket),
        Err(Error::InvalidTicket)
    ));
}
