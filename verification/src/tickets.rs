//! Selling tickets, and the hashes that their holders commit.

use crate::action::{Action, ActionView, Payment, TicketPurchased};
use crate::address::Address;
use crate::draw::{ask_oracle, oracle_asked};
use crate::error::Error;
use crate::helpers::{drawing_refusal, transition_to_drawing, transition_to_drawing_outcome};
use crate::store::{lists_in, Frame, FrameView, Store, StoreView};
use crate::types::{CommitRevealEntry, Raffle, RaffleStatus, RaffleView, RandomnessSource, Ticket};
use crate::table::AddressTable;
use soroban_sdk::Env;
use std::collections::HashMap;
use vstd::prelude::*;

verus! {

broadcast use vstd::std_specs::hash::group_hash_axioms;

/// How many tickets are sold at the early bird discount: the first ones, up to the
/// early bird percentage of all.
pub open spec fn early_bird_cap(raffle: RaffleView) -> int {
    raffle.max_tickets * raffle.early_bird_ticket_percentage / 100
}

/// The price less the early bird discount, rounded down.
pub open spec fn early_bird_price(raffle: RaffleView) -> int {
    raffle.ticket_price * (10000 - raffle.early_bird_discount_bp) / 10000
}

/// The price of the next ticket; `early_bird` says whether the discount is given.
pub open spec fn price_of_next(raffle: RaffleView, early_bird: bool) -> int {
    if early_bird && raffle.tickets_sold < early_bird_cap(raffle) {
        early_bird_price(raffle)
    } else {
        raffle.ticket_price as int
    }
}

/// How many tickets of a purchase are sold at the early bird discount.
pub open spec fn discounted_in(raffle: RaffleView, quantity: u32, early_bird: bool) -> int {
    let left = early_bird_cap(raffle) - raffle.tickets_sold;
    if !early_bird || left <= 0 {
        0
    } else if left < quantity {
        left
    } else {
        quantity as int
    }
}

/// What a purchase costs: the early bird price for the tickets below the cap, and the
/// full price for the rest.
pub open spec fn cost_of(raffle: RaffleView, quantity: u32, early_bird: bool) -> int {
    let discounted = discounted_in(raffle, quantity, early_bird);
    early_bird_price(raffle) * discounted + raffle.ticket_price * (quantity - discounted)
}

/// The protocol's part of what a purchase costs, rounded down.
pub open spec fn fee_of(raffle: RaffleView, quantity: u32, early_bird: bool) -> int {
    cost_of(raffle, quantity, early_bird) * raffle.protocol_fee_bp / 10000
}

/// Why a purchase is refused before the buyer is asked to confirm, if it is.
pub open spec fn early_sale_refusal(store: StoreView, quantity: u32) -> Option<Error> {
    if store.drawing_lock {
        Some(Error::DrawingAlreadyInProgress)
    } else if quantity == 0 {
        Some(Error::InvalidQuantity)
    } else if store.raffle is None {
        Some(Error::NotInitialized)
    } else if quantity > store.raffle->0.max_tickets_per_tx {
        Some(Error::ExceedsMaxTicketsPerTx)
    } else {
        None
    }
}

/// Why a purchase that the buyer has confirmed is refused, if it is.
pub open spec fn sale_refusal(store: StoreView, buyer: Address, quantity: u32, now: u64) -> Option<Error>
    recommends
        store.raffle is Some,
{
    let raffle = store.raffle->0;
    if store.paused {
        Some(Error::ContractPaused)
    } else if raffle.status !is Active {
        Some(Error::RaffleInactive)
    } else if raffle.ticket_sales_paused {
        Some(Error::ContractPaused)
    } else if !raffle.prize_deposited {
        Some(Error::InvalidStateTransition)
    } else if !raffle.no_deadline && now > raffle.end_time {
        Some(Error::RaffleExpired)
    } else if raffle.tickets_sold + quantity > raffle.max_tickets {
        Some(Error::TicketsSoldOut)
    } else if !raffle.allow_multiple && (store.count_of(buyer) > 0 || quantity > 1) {
        Some(Error::MultipleTicketsNotAllowed)
    } else if raffle.tickets_sold + quantity == raffle.max_tickets && raffle.randomness_source is External
        && store.randomness_requested {
        Some(Error::RandomnessAlreadyRequested)
    } else {
        None
    }
}

/// The numbers of the tickets in a purchase.
pub open spec fn new_ticket_ids(tickets_sold: u32, quantity: u32) -> Seq<u32> {
    Seq::new(quantity as nat, |i: int| (tickets_sold + 1 + i) as u32)
}

/// The tickets in a purchase, by their numbers.
pub open spec fn new_tickets(tickets_sold: u32, quantity: u32, buyer: Address, now: u64) -> Map<u32, Ticket> {
    Map::new(
        |id: u32| tickets_sold < id <= tickets_sold + quantity,
        |id: u32| Ticket { id, owner: buyer, purchase_time: now, ticket_number: id },
    )
}

/// The memory after a buyer has been written down.
pub open spec fn buyer_entered(store: StoreView, buyer: Address, quantity: u32) -> StoreView {
    StoreView {
        ticket_counts: store.ticket_counts.insert(
            buyer,
            (store.count_of(buyer) + quantity) as u32,
        ),
        ticket_buyers: if store.count_of(buyer) == 0 {
            store.ticket_buyers.push(buyer)
        } else {
            store.ticket_buyers
        },
        ..store
    }
}

/// The memory after tickets have been written down, in the index of owners too.
pub open spec fn tickets_entered(
    store: StoreView,
    buyer: Address,
    sold: u32,
    quantity: u32,
    now: u64,
) -> StoreView {
    StoreView {
        tickets: store.tickets.union_prefer_right(new_tickets(sold, quantity, buyer, now)),
        owner_tickets: store.owner_tickets.insert(
            buyer,
            store.tickets_of(buyer) + new_ticket_ids(sold, quantity),
        ),
        ..store
    }
}

/// The memory after a purchase, as far as tickets and fees go.
pub open spec fn sold_to(
    store: StoreView,
    buyer: Address,
    quantity: u32,
    now: u64,
    fee: int,
) -> StoreView {
    let raffle = store.raffle->0;
    let sold = raffle.tickets_sold;
    StoreView {
        raffle: Some(RaffleView { tickets_sold: (sold + quantity) as u32, ..raffle }),
        accumulated_fees: (store.accumulated_fees + fee) as i128,
        ..tickets_entered(
            buyer_entered(store, buyer, quantity),
            buyer,
            sold,
            quantity,
            now,
        )
    }
}

/// The frame after the draw has begun, if the last ticket is sold.
pub open spec fn draw_if_sold_out(f: FrameView, buyer: Address) -> FrameView {
    let raffle = f.store.raffle->0;
    if raffle.tickets_sold >= raffle.max_tickets {
        let drawing = transition_to_drawing_outcome(f, f.ledger.timestamp).1;
        if raffle.randomness_source is External {
            oracle_asked(drawing, buyer)
        } else {
            drawing
        }
    } else {
        f
    }
}

/// The frame after the factory has been told of a purchase.
pub open spec fn factory_told(f: FrameView, buyer: Address, cost: int) -> FrameView {
    match f.store.factory {
        Some(factory) => f.act(
            ActionView::RecordVolume {
                factory,
                token: f.store.raffle->0.payment_token,
                amount: cost as i128,
            },
        ).act(ActionView::TrackParticipant { factory, participant: buyer }),
        None => f,
    }
}

/// The frame after a purchase has been paid.
pub open spec fn purchase_paid(f: FrameView, buyer: Address, cost: int, fee: int) -> FrameView {
    let raffle = f.store.raffle->0;
    let paid = f.act(
        ActionView::TryTransfer(
            Payment {
                token: raffle.payment_token,
                from: buyer,
                to: f.ledger.contract,
                amount: cost as i128,
            },
        ),
    );
    if fee > 0 && raffle.treasury_address is Some {
        paid.act(
            ActionView::Transfer(
                Payment {
                    token: raffle.payment_token,
                    from: f.ledger.contract,
                    to: raffle.treasury_address->0,
                    amount: fee as i128,
                },
            ),
        )
    } else {
        paid
    }
}

/// The frame after a purchase.
pub open spec fn sold_frame(
    f: FrameView,
    buyer: Address,
    quantity: u32,
    early_bird: bool,
) -> FrameView {
    let raffle = f.store.raffle->0;
    let now = f.ledger.timestamp;
    let cost = cost_of(raffle, quantity, early_bird);
    let fee = fee_of(raffle, quantity, early_bird);
    let sold = f.with_store(sold_to(f.store, buyer, quantity, now, fee));
    let drawn = draw_if_sold_out(sold, buyer);
    purchase_paid(factory_told(drawn, buyer, cost), buyer, cost, fee).act(
        ActionView::PublishPurchase {
            buyer,
            ticket_ids: new_ticket_ids(raffle.tickets_sold, quantity),
            quantity,
            ticket_price: raffle.ticket_price,
            effective_ticket_price: price_of_next(raffle, early_bird) as i128,
            total_paid: cost as i128,
            protocol_fee: fee as i128,
            timestamp: now,
        },
    )
}

/// What a purchase comes to.
pub open spec fn sale_outcome(
    f: FrameView,
    buyer: Address,
    quantity: u32,
    early_bird: bool,
) -> (Result<u32, Error>, FrameView) {
    if early_sale_refusal(f.store, quantity) is Some {
        (Err(early_sale_refusal(f.store, quantity)->0), f)
    } else {
        let g = f.act(ActionView::RequireAuth(buyer));
        let refusal = sale_refusal(f.store, buyer, quantity, f.ledger.timestamp);
        if refusal is Some {
            (Err(refusal->0), g)
        } else {
            (
                Ok((f.store.raffle->0.tickets_sold + quantity) as u32),
                sold_frame(g, buyer, quantity, early_bird),
            )
        }
    }
}

/// The early bird price lies between nothing and the full price wherever it is given.
proof fn lemma_early_bird_price(raffle: RaffleView)
    requires
        raffle.wf(),
        early_bird_cap(raffle) > 0,
    ensures
        0 <= early_bird_price(raffle) <= raffle.ticket_price,
        raffle.early_bird_ticket_percentage > 0,
        raffle.early_bird_discount_bp <= 10000,
{
    let base = raffle.ticket_price as int;
    let max = raffle.max_tickets;
    let pct = raffle.early_bird_ticket_percentage;
    assert(pct > 0) by (nonlinear_arith)
        requires
            0 < max * pct / 100,
    ;
    let rest = 10000 - raffle.early_bird_discount_bp as int;
    assert(0 <= base * rest <= base * 10000) by (nonlinear_arith)
        requires
            0 <= base,
            0 <= rest <= 10000,
    ;
}

/// Prices, costs and fees stay far below the limits of a 128-bit number.
pub proof fn lemma_costs(raffle: RaffleView, quantity: u32, early_bird: bool)
    requires
        raffle.wf(),
        quantity <= raffle.max_tickets,
    ensures
        0 <= price_of_next(raffle, early_bird) <= raffle.ticket_price,
        0 <= cost_of(raffle, quantity, early_bird) <= raffle.ticket_price * quantity,
        0 <= fee_of(raffle, quantity, early_bird) <= cost_of(raffle, quantity, early_bird),
        raffle.ticket_price * quantity <= 100_000_000_000_000_000_000_000_000,
        cost_of(raffle, quantity, early_bird) * raffle.protocol_fee_bp
            <= 1_000_000_000_000_000_000_000_000_000_000,
{
    let base = raffle.ticket_price as int;
    let early = early_bird_price(raffle);
    let q = quantity as int;
    let d = discounted_in(raffle, quantity, early_bird);
    let bp = raffle.protocol_fee_bp as int;
    if early_bird && early_bird_cap(raffle) > 0 {
        lemma_early_bird_price(raffle);
        assert(0 <= early * d <= base * d) by (nonlinear_arith)
            requires
                0 <= early <= base,
                0 <= d,
        ;
    } else {
        assert(early * d == 0 && base * d == 0) by (nonlinear_arith)
            requires
                d == 0,
        ;
    }
    assert(base * d + base * (q - d) == base * q) by (nonlinear_arith);
    assert(0 <= base * (q - d) && base * q <= 100_000_000_000_000_000_000_000_000) by (nonlinear_arith)
        requires
            0 <= base <= 1_000_000_000_000_000_000_000,
            0 <= d <= q <= 100_000,
    ;
    let cost = cost_of(raffle, quantity, early_bird);
    assert(0 <= cost * bp <= cost * 10000) by (nonlinear_arith)
        requires
            0 <= cost,
            0 <= bp <= 10000,
    ;
}

/// The fees stay far below the limit of a 128-bit number.
proof fn lemma_fees_fit(store: StoreView, quantity: u32, early_bird: bool)
    requires
        store.raffle is Some,
        store.wf(),
        quantity <= store.raffle->0.max_tickets,
    ensures
        0 <= store.accumulated_fees + fee_of(store.raffle->0, quantity, early_bird) <= i128::MAX,
{
    lemma_costs(store.raffle->0, quantity, early_bird);
    let price = store.raffle->0.ticket_price as int;
    let sold = store.raffle->0.tickets_sold as int;
    assert(sold * price <= 100_000_000_000_000_000_000_000_000) by (nonlinear_arith)
        requires
            0 <= price <= 1_000_000_000_000_000_000_000,
            0 <= sold <= 100_000,
    ;
}

/// Computes how many tickets are sold at the early bird discount.
fn discount_cap(raffle: &Raffle) -> (r: u32)
    requires
        raffle@.wf(),
    ensures
        r == early_bird_cap(raffle@),
{
    let max: u32 = raffle.max_tickets;
    let pct: u32 = raffle.early_bird_ticket_percentage;
    assert(max * pct <= 10_000_000) by (nonlinear_arith)
        requires
            max <= 100_000,
            pct <= 100,
    ;
    max * pct / 100
}

/// Computes the price of the next ticket.
pub fn effective_price(raffle: &Raffle, early_bird: bool) -> (r: i128)
    requires
        raffle@.wf(),
    ensures
        r == price_of_next(raffle@, early_bird),
{
    let cap: u32 = discount_cap(raffle);
    if early_bird && raffle.tickets_sold < cap {
        proof {
            lemma_early_bird_price(raffle@);
        }
        let rest: i128 = (10000 - raffle.early_bird_discount_bp) as i128;
        let base: i128 = raffle.ticket_price;
        assert(0 <= base * rest <= base * 10000) by (nonlinear_arith)
            requires
                0 <= base,
                0 <= rest <= 10000,
        ;
        return base * rest / 10000;
    }
    raffle.ticket_price
}

/// Computes what a purchase costs.
pub fn purchase_cost(raffle: &Raffle, quantity: u32, early_bird: bool) -> (r: i128)
    requires
        raffle@.wf(),
        quantity <= raffle.max_tickets,
    ensures
        r == cost_of(raffle@, quantity, early_bird),
{
    let price: i128 = effective_price(raffle, early_bird);
    let cap: u32 = discount_cap(raffle);
    let sold: u32 = raffle.tickets_sold;
    let discounted: u32 = if !early_bird || cap <= sold {
        0
    } else if cap - sold < quantity {
        cap - sold
    } else {
        quantity
    };
    let base: i128 = raffle.ticket_price;
    let rest: u32 = quantity - discounted;
    proof {
        lemma_costs(raffle@, quantity, early_bird);
        let early = early_bird_price(raffle@);
        assert(early * 0 == 0 && price * 0 == 0);
        assert(0 <= price * discounted <= base * quantity) by (nonlinear_arith)
            requires
                0 <= price <= base,
                0 <= discounted <= quantity,
        ;
        assert(0 <= base * rest <= base * quantity) by (nonlinear_arith)
            requires
                0 <= base,
                0 <= rest <= quantity,
        ;
    }
    price * discounted as i128 + base * rest as i128
}

/// Why a purchase that the buyer has confirmed is refused, if it is.
fn check_sale(store: &Store, buyer: Address, quantity: u32, now: u64) -> (r: Option<Error>)
    requires
        store.raffle is Some,
        store@.wf(),
        quantity <= store.raffle->0.max_tickets_per_tx,
    ensures
        r == sale_refusal(store@, buyer, quantity, now),
{
    match &store.raffle {
        Some(raffle) => {
            if store.paused {
                return Some(Error::ContractPaused);
            }
            if raffle.status != RaffleStatus::Active {
                return Some(Error::RaffleInactive);
            }
            if raffle.ticket_sales_paused {
                return Some(Error::ContractPaused);
            }
            if !raffle.prize_deposited {
                return Some(Error::InvalidStateTransition);
            }
            if !raffle.no_deadline && now > raffle.end_time {
                return Some(Error::RaffleExpired);
            }
            if raffle.tickets_sold + quantity > raffle.max_tickets {
                return Some(Error::TicketsSoldOut);
            }
            let count: u32 = match store.ticket_counts.get(buyer) {
                Some(count) => *count,
                None => 0,
            };
            if !raffle.allow_multiple && (count > 0 || quantity > 1) {
                return Some(Error::MultipleTicketsNotAllowed);
            }
            if raffle.tickets_sold + quantity == raffle.max_tickets && raffle.randomness_source
                == RandomnessSource::External && store.randomness_requested {
                return Some(Error::RandomnessAlreadyRequested);
            }
            None
        },
        None => None,
    }
}

/// Writes the tickets in a purchase down.
fn mint_tickets(
    tickets: &mut HashMap<u32, Ticket>,
    sold: u32,
    quantity: u32,
    buyer: Address,
    now: u64,
) -> (ids: Vec<u32>)
    requires
        sold + quantity <= u32::MAX,
    ensures
        final(tickets)@ == old(tickets)@.union_prefer_right(
            new_tickets(sold, quantity, buyer, now),
        ),
        ids@ == new_ticket_ids(sold, quantity),
{
    let ghost before = tickets@;
    let mut ids: Vec<u32> = Vec::new();
    let mut i: u32 = 0;
    assert(before.union_prefer_right(new_tickets(sold, 0, buyer, now)) =~= before);
    while i < quantity
        invariant
            i <= quantity,
            sold + quantity <= u32::MAX,
            ids@ == new_ticket_ids(sold, i),
            tickets@ == before.union_prefer_right(new_tickets(sold, i, buyer, now)),
        decreases quantity - i,
    {
        let id: u32 = sold + i + 1;
        tickets.insert(id, Ticket { id, owner: buyer, purchase_time: now, ticket_number: id });
        ids.push(id);
        i += 1;
        assert(ids@ =~= new_ticket_ids(sold, i));
        assert(tickets@ =~= before.union_prefer_right(new_tickets(sold, i, buyer, now)));
    }
    ids
}

/// Adds the tickets in a purchase to the index of owners.
fn index_tickets(table: &mut AddressTable<Vec<u32>>, buyer: Address, ids: &Vec<u32>)
    ensures
        lists_in(final(table)@) == lists_in(old(table)@).insert(
            buyer,
            (if lists_in(old(table)@).contains_key(buyer) {
                lists_in(old(table)@)[buyer]
            } else {
                Seq::empty()
            }) + ids@,
        ),
{
    let mut owned: Vec<u32> = match table.take(buyer) {
        Some(owned) => owned,
        None => Vec::new(),
    };
    let ghost former = owned@;
    let mut k: usize = 0;
    assert(former + ids@.take(0) =~= former);
    while k < ids.len()
        invariant
            k <= ids@.len(),
            owned@ == former + ids@.take(k as int),
        decreases ids@.len() - k,
    {
        owned.push(ids[k]);
        assert(former + ids@.take(k + 1) =~= (former + ids@.take(k as int)).push(ids@[k as int]));
        k += 1;
    }
    assert(ids@.take(k as int) =~= ids@);
    table.set(buyer, owned);
    assert(lists_in(table@) =~= lists_in(old(table)@).insert(buyer, former + ids@));
}

/// Writes down how many tickets a buyer has after a purchase, and a new buyer's
/// address.
fn enter_buyer(store: &mut Store, buyer: Address, quantity: u32)
    requires
        old(store)@.count_of(buyer) + quantity <= u32::MAX,
    ensures
        final(store)@ == buyer_entered(old(store)@, buyer, quantity),
        final(store).raffle == old(store).raffle,
{
    let count: u32 = match store.ticket_counts.get(buyer) {
        Some(count) => *count,
        None => 0,
    };
    if count == 0 {
        store.ticket_buyers.push(buyer);
    }
    store.ticket_counts.set(buyer, count + quantity);
}

/// Writes down the tickets in a purchase, in the index of owners too.
fn enter_tickets(store: &mut Store, buyer: Address, sold: u32, quantity: u32, now: u64) -> (ids: Vec<
    u32,
>)
    requires
        sold + quantity <= u32::MAX,
    ensures
        final(store)@ == tickets_entered(old(store)@, buyer, sold, quantity, now),
        final(store).raffle == old(store).raffle,
        ids@ == new_ticket_ids(sold, quantity),
{
    let ids = mint_tickets(&mut store.tickets, sold, quantity, buyer, now);
    index_tickets(&mut store.owner_tickets, buyer, &ids);
    ids
}

/// Writes a purchase into the books.
fn book_sale(
    store: &mut Store,
    buyer: Address,
    quantity: u32,
    now: u64,
    fee: i128,
) -> (ids: Vec<u32>)
    requires
        old(store).raffle is Some,
        old(store)@.count_of(buyer) + quantity <= u32::MAX,
        old(store).raffle->0.tickets_sold + quantity <= u32::MAX,
        0 <= old(store).accumulated_fees + fee <= i128::MAX,
    ensures
        final(store)@ == sold_to(old(store)@, buyer, quantity, now, fee as int),
        ids@ == new_ticket_ids(old(store).raffle->0.tickets_sold, quantity),
{
    let sold: u32 = match &store.raffle {
        Some(raffle) => raffle.tickets_sold,
        None => 0,
    };
    enter_buyer(store, buyer, quantity);
    let ids = enter_tickets(store, buyer, sold, quantity, now);
    store.raffle_mut().tickets_sold = sold + quantity;
    store.accumulated_fees = store.accumulated_fees + fee;
    ids
}

/// Begins the draw if the last ticket is sold.
fn begin_draw_if_sold_out(env: &Env, frame: &mut Frame, buyer: Address)
    requires
        old(frame).store.raffle is Some,
        drawing_refusal(old(frame)@.store) is None,
        old(frame).store.raffle->0.tickets_sold >= old(frame).store.raffle->0.max_tickets
            && old(frame).store.raffle->0.randomness_source is External ==> !old(
            frame,
        ).store.randomness_requested,
    ensures
        final(frame)@ == draw_if_sold_out(old(frame)@, buyer),
        final(frame).ledger == old(frame).ledger,
        final(frame).store.raffle is Some,
{
    let (sold_out, source) = match &frame.store.raffle {
        Some(raffle) => (raffle.tickets_sold >= raffle.max_tickets, raffle.randomness_source),
        None => (false, RandomnessSource::Internal),
    };
    if sold_out {
        let now: u64 = frame.ledger.timestamp;
        let _begun = transition_to_drawing(frame, now);
        if source == RandomnessSource::External {
            ask_oracle(env, frame, buyer);
        }
    }
}

/// Tells the factory of a purchase and has it paid.
fn collect_payment(frame: &mut Frame, buyer: Address, total: i128, fee: i128)
    requires
        old(frame).store.raffle is Some,
    ensures
        final(frame)@ == purchase_paid(
            factory_told(old(frame)@, buyer, total as int),
            buyer,
            total as int,
            fee as int,
        ),
{
    let (token, treasury) = match &frame.store.raffle {
        Some(raffle) => (raffle.payment_token, raffle.treasury_address),
        None => return,
    };
    let contract = frame.ledger.contract;
    match frame.store.factory {
        Some(factory) => {
            frame.act(Action::RecordVolume { factory, token, amount: total });
            frame.act(Action::TrackParticipant { factory, participant: buyer });
        },
        None => {},
    }
    frame.act(Action::TryTransfer(Payment { token, from: buyer, to: contract, amount: total }));
    if fee > 0 {
        match treasury {
            Some(treasury) => {
                frame.act(
                    Action::Transfer(
                        Payment { token, from: contract, to: treasury, amount: fee },
                    ),
                );
            },
            None => {},
        }
    }
}

/// Sells tickets; `early_bird` says whether the early bird discount is given.
pub fn sell(env: &Env, frame: &mut Frame, buyer: Address, quantity: u32, early_bird: bool) -> (r: Result<
    u32,
    Error,
>)
    requires
        old(frame)@.store.wf(),
    ensures
        (r, final(frame)@) == sale_outcome(old(frame)@, buyer, quantity, early_bird),
{
    let now: u64 = frame.ledger.timestamp;
    if frame.store.drawing_lock {
        return Err(Error::DrawingAlreadyInProgress);
    }
    if quantity == 0 {
        return Err(Error::InvalidQuantity);
    }
    let (price, total, ticket_price, fee_bp, sold) = match &frame.store.raffle {
        Some(raffle) => {
            if quantity > raffle.max_tickets_per_tx {
                return Err(Error::ExceedsMaxTicketsPerTx);
            }
            (
                effective_price(raffle, early_bird),
                purchase_cost(raffle, quantity, early_bird),
                raffle.ticket_price,
                raffle.protocol_fee_bp,
                raffle.tickets_sold,
            )
        },
        None => return Err(Error::NotInitialized),
    };
    frame.act(Action::RequireAuth(buyer));
    match check_sale(&frame.store, buyer, quantity, now) {
        Some(e) => return Err(e),
        None => {},
    }
    proof {
        lemma_costs(frame@.store.raffle->0, quantity, early_bird);
        lemma_fees_fit(frame@.store, quantity, early_bird);
    }
    let fee: i128 = total * fee_bp as i128 / 10000;
    let ids = book_sale(&mut frame.store, buyer, quantity, now, fee);
    begin_draw_if_sold_out(env, frame, buyer);
    collect_payment(frame, buyer, total, fee);
    frame.act(
        Action::PublishPurchase(
            TicketPurchased {
                buyer,
                ticket_ids: ids,
                quantity,
                ticket_price,
                effective_ticket_price: price,
                total_paid: total,
                protocol_fee: fee,
                timestamp: now,
            },
        ),
    );
    Ok(sold + quantity)
}

/// Sells tickets at the full price.
pub fn buy_tickets(env: &Env, frame: &mut Frame, buyer: Address, quantity: u32) -> (r: Result<u32, Error>)
    requires
        old(frame)@.store.wf(),
    ensures
        (r, final(frame)@) == sale_outcome(old(frame)@, buyer, quantity, false),
{
    sell(env, frame, buyer, quantity, false)
}

/// What [`submit_commit`] comes to.
pub open spec fn submit_commit_outcome(f: FrameView, ticket_id: u32, hash: [u8; 32]) -> (
    Result<(), Error>,
    FrameView,
) {
    match f.store.raffle {
        None => (Err(Error::NotInitialized), f),
        Some(raffle) => if raffle.randomness_source !is CommitReveal {
            (Err(Error::InvalidParameters), f)
        } else if raffle.status !is Active && raffle.status !is Drawing {
            (Err(Error::InvalidStatus), f)
        } else if !f.store.tickets.contains_key(ticket_id) {
            (Err(Error::TicketNotFound), f)
        } else {
            let owner = f.store.tickets[ticket_id].owner;
            (
                Ok(()),
                f.act(ActionView::RequireAuth(owner)).with_store(
                    StoreView {
                        commit_entries: f.store.commit_entries.insert(
                            ticket_id,
                            CommitRevealEntry { committer: owner, hash },
                        ),
                        ..f.store
                    },
                ),
            )
        },
    }
}

/// Records the hash that the owner of a ticket contributes to the seed.
pub fn submit_commit(frame: &mut Frame, ticket_id: u32, hash: [u8; 32]) -> (r: Result<(), Error>)
    ensures
        (r, final(frame)@) == submit_commit_outcome(old(frame)@, ticket_id, hash),
{
    let (source, status) = match &frame.store.raffle {
        Some(raffle) => (raffle.randomness_source, raffle.status),
        None => return Err(Error::NotInitialized),
    };
    if source != RandomnessSource::CommitReveal {
        return Err(Error::InvalidParameters);
    }
    if status != RaffleStatus::Active && status != RaffleStatus::Drawing {
        return Err(Error::InvalidStatus);
    }
    let owner = match frame.store.tickets.get(&ticket_id) {
        Some(ticket) => ticket.owner,
        None => return Err(Error::TicketNotFound),
    };
    frame.act(Action::RequireAuth(owner));
    frame.store.commit_entries.insert(ticket_id, CommitRevealEntry { committer: owner, hash });
    Ok(())
}

} // verus!
