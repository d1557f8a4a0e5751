//! The steps that several calls share.

use crate::action::{Action, ActionView, Event, RaffleFinalized};
use crate::address::Address;
use crate::bytes::{big_endian, leading_u64};
use crate::error::Error;
use crate::host::{
    address_to_xdr, holds_numbers, host_vec_get, host_vec_len, items_of, ledger_to_xdr, request_to_xdr, sha256,
    sha256_of, xdr_of_address, xdr_of_ledger, xdr_of_request,
};
use crate::randomness::{OracleSeedWinnerSelection, WinnerSelectionStrategy};
use crate::sampling::{winners_are_distinct_tickets, winning_indices};
use crate::store::{Frame, FrameView, Ledger, Store, StoreView};
use crate::types::{
    sum_of, FairnessMetadata, FairnessMetadataView, Raffle, RaffleStatus, RaffleView,
    RandomnessType,
};
use crate::MAX_PRIZE_AMOUNT;
use soroban_sdk::Env;
use vstd::prelude::*;

verus! {

broadcast use vstd::std_specs::hash::group_hash_axioms;

/// Returns the raffle, which has to have been created.
pub fn read_raffle(store: &Store) -> (r: Result<&Raffle, Error>)
    ensures
        r == match store.raffle {
            Some(raffle) => Ok::<&Raffle, Error>(&raffle),
            None => Err(Error::NotInitialized),
        },
{
    match &store.raffle {
        Some(raffle) => Ok(raffle),
        None => Err(Error::NotInitialized),
    }
}

/// What [`require_admin`] comes to.
pub open spec fn require_admin_outcome(f: FrameView) -> (Result<Address, Error>, FrameView) {
    match f.store.standing_admin {
        Some(admin) => (Ok(admin), f.act(ActionView::RequireAuth(admin))),
        None => (Err(Error::NotAuthorized), f),
    }
}

/// Has the standing administrator confirm the call.
pub fn require_admin(frame: &mut Frame) -> (r: Result<Address, Error>)
    ensures
        (r, final(frame)@) == require_admin_outcome(old(frame)@),
        final(frame).store == old(frame).store,
        final(frame).ledger == old(frame).ledger,
{
    match frame.store.standing_admin {
        Some(admin) => {
            frame.act(Action::RequireAuth(admin));
            Ok(admin)
        },
        None => Err(Error::NotAuthorized),
    }
}

/// Refuses while the contract is paused.
pub fn require_not_paused(store: &Store) -> (r: Result<(), Error>)
    ensures
        r == if store.paused {
            Err::<(), Error>(Error::ContractPaused)
        } else {
            Ok(())
        },
{
    if store.paused {
        Err(Error::ContractPaused)
    } else {
        Ok(())
    }
}

/// Returns the owner of a ticket.
pub fn get_ticket_owner(store: &Store, ticket_id: u32) -> (r: Option<Address>)
    ensures
        r == if store@.tickets.contains_key(ticket_id) {
            Some(store@.tickets[ticket_id].owner)
        } else {
            None
        },
{
    match store.tickets.get(&ticket_id) {
        Some(ticket) => Some(ticket.owner),
        None => None,
    }
}

/// Marks that a call is in progress, unless one is already.
pub fn acquire_guard(store: &mut Store) -> (r: Result<(), Error>)
    ensures
        r == if old(store).reentrancy_guard {
            Err::<(), Error>(Error::Reentrancy)
        } else {
            Ok(())
        },
        *final(store) == (Store { reentrancy_guard: true, ..*old(store) }),
{
    if store.reentrancy_guard {
        return Err(Error::Reentrancy);
    }
    store.reentrancy_guard = true;
    Ok(())
}

/// Takes the mark of [`acquire_guard`] away.
pub fn release_guard(store: &mut Store)
    ensures
        *final(store) == (Store { reentrancy_guard: false, ..*old(store) }),
{
    store.reentrancy_guard = false;
}

/// Has the host check that an address is a token contract.
pub fn validate_token_address(frame: &mut Frame, token: Address)
    ensures
        final(frame)@ == old(frame)@.act(ActionView::CheckToken(token)),
        final(frame).store == old(frame).store,
        final(frame).ledger == old(frame).ledger,
{
    frame.act(Action::CheckToken(token));
}

/// Refuses a swap that gives less than was asked for. The deadline lies the
/// configured time ahead of the present, so it has never passed.
pub fn enforce_swap_guard(ledger: &Ledger, raffle: &Raffle, amount_out: i128, min_amount_out: i128) -> (r:
    Result<(), Error>)
    requires
        ledger.timestamp + raffle.swap_deadline_seconds <= u64::MAX,
    ensures
        r == if amount_out < min_amount_out {
            Err::<(), Error>(Error::SlippageExceeded)
        } else {
            Ok(())
        },
{
    let deadline: u64 = ledger.timestamp + raffle.swap_deadline_seconds;
    if ledger.timestamp > deadline {
        return Err(Error::DeadlinePassed);
    }
    if amount_out < min_amount_out {
        return Err(Error::SlippageExceeded);
    }
    Ok(())
}

/// The number of a request for randomness that is made in a ledger.
pub open spec fn request_id_in(ledger: Ledger) -> u64 {
    let packed = xdr_of_request(ledger.timestamp, ledger.sequence, xdr_of_address(ledger.contract));
    big_endian(sha256_of(packed).take(8)) as u64
}

/// Computes the number of a request for randomness.
pub fn build_request_id(env: &Env, ledger: &Ledger) -> (r: u64)
    ensures
        r == request_id_in(*ledger),
{
    let contract_xdr = address_to_xdr(env, &ledger.contract);
    let packed = request_to_xdr(env, ledger.timestamp, ledger.sequence, &contract_xdr);
    leading_u64(&sha256(env, &packed))
}

/// What [`request_randomness`] comes to.
pub open spec fn request_randomness_outcome(f: FrameView) -> (Result<u64, Error>, FrameView) {
    if f.store.randomness_requested {
        (Err(Error::RandomnessAlreadyRequested), f)
    } else {
        (
            Ok(request_id_in(f.ledger)),
            f.with_store(
                StoreView {
                    randomness_requested: true,
                    randomness_request_ledger: Some(f.ledger.sequence),
                    randomness_request_id: Some(request_id_in(f.ledger)),
                    ..f.store
                },
            ),
        )
    }
}

/// Opens a request for randomness, unless one is open.
pub fn request_randomness(env: &Env, frame: &mut Frame) -> (r: Result<u64, Error>)
    ensures
        (r, final(frame)@) == request_randomness_outcome(old(frame)@),
{
    if frame.store.randomness_requested {
        return Err(Error::RandomnessAlreadyRequested);
    }
    let request_id: u64 = build_request_id(env, &frame.ledger);
    frame.store.randomness_requested = true;
    frame.store.randomness_request_ledger = Some(frame.ledger.sequence);
    frame.store.randomness_request_id = Some(request_id);
    Ok(request_id)
}

/// Why a draw cannot begin, if it cannot.
pub open spec fn drawing_refusal(store: StoreView) -> Option<Error>
    recommends
        store.raffle is Some,
{
    if store.drawing_lock || store.raffle->0.status is Drawing {
        Some(Error::DrawingAlreadyInProgress)
    } else if store.raffle->0.status !is Active {
        Some(Error::InvalidStatusForDrawingTransition)
    } else {
        None
    }
}

/// What [`transition_to_drawing`] comes to.
pub open spec fn transition_to_drawing_outcome(f: FrameView, timestamp: u64) -> (
    Result<(), Error>,
    FrameView,
) {
    match drawing_refusal(f.store) {
        Some(e) => (Err(e), f),
        None => (
            Ok(()),
            f.with_store(
                StoreView {
                    raffle: Some(
                        RaffleView { status: RaffleStatus::Drawing, ..f.store.raffle->0 },
                    ),
                    drawing_lock: true,
                    ..f.store
                },
            ).act(
                ActionView::Publish(
                    Event::RaffleStatusChanged {
                        old_status: RaffleStatus::Active,
                        new_status: RaffleStatus::Drawing,
                        timestamp,
                    },
                ),
            ),
        ),
    }
}

/// Moves the raffle from sale to draw. Only an active raffle can be drawn, and
/// only once at a time: the lock that is taken here keeps every other draw out
/// until this one has come to its end.
pub fn transition_to_drawing(frame: &mut Frame, timestamp: u64) -> (r: Result<(), Error>)
    requires
        old(frame).store.raffle is Some,
    ensures
        (r, final(frame)@) == transition_to_drawing_outcome(old(frame)@, timestamp),
{
    match check_drawing(&frame.store) {
        Some(e) => return Err(e),
        None => {},
    }
    frame.store.raffle_mut().status = RaffleStatus::Drawing;
    frame.store.drawing_lock = true;
    frame.act(
        Action::Publish(
            Event::RaffleStatusChanged {
                old_status: RaffleStatus::Active,
                new_status: RaffleStatus::Drawing,
                timestamp,
            },
        ),
    );
    Ok(())
}

/// Finds why a draw cannot begin.
pub fn check_drawing(store: &Store) -> (r: Option<Error>)
    requires
        store.raffle is Some,
    ensures
        r == drawing_refusal(store@),
{
    if store.drawing_lock {
        return Some(Error::DrawingAlreadyInProgress);
    }
    match &store.raffle {
        Some(raffle) => match raffle.status {
            RaffleStatus::Active => None,
            RaffleStatus::Drawing => Some(Error::DrawingAlreadyInProgress),
            _ => Some(Error::InvalidStatusForDrawingTransition),
        },
        None => None,
    }
}

/// The seed that a ledger gives.
pub open spec fn ledger_seed(ledger: Ledger) -> u64 {
    let packed = xdr_of_ledger(ledger.timestamp, ledger.sequence, ledger.contract);
    big_endian(sha256_of(packed).take(8)) as u64
}

/// Computes the seed that a ledger gives.
pub fn build_internal_seed_u64(env: &Env, ledger: &Ledger) -> (r: u64)
    ensures
        r == ledger_seed(*ledger),
{
    let packed = ledger_to_xdr(env, ledger.timestamp, ledger.sequence, &ledger.contract);
    leading_u64(&sha256(env, &packed))
}

/// The part of an amount that a number of basis points stands for, rounded down.
pub open spec fn share_of(amount: int, bp: u32) -> int {
    amount * bp / 10000
}

/// What the tiers before `tier` get together.
pub open spec fn shares_before(amount: int, prizes: Seq<u32>, tier: int) -> int
    decreases tier,
{
    if tier <= 0 {
        0
    } else {
        shares_before(amount, prizes, tier - 1) + share_of(amount, prizes[tier - 1])
    }
}

/// What a tier gets: its share of the prize, and the last tier what the others
/// leave.
pub open spec fn tier_prize(raffle: RaffleView, tier: int) -> int {
    if tier == raffle.prizes.len() - 1 {
        raffle.prize_amount - shares_before(raffle.prize_amount as int, raffle.prizes, tier)
    } else {
        share_of(raffle.prize_amount as int, raffle.prizes[tier])
    }
}

/// The first shares of a list, and the next one with them, add up to no more than
/// the whole list.
pub proof fn lemma_sum_of_bounds(shares: Seq<u32>, i: int)
    requires
        0 <= i <= shares.len(),
    ensures
        0 <= sum_of(shares.take(i)) <= sum_of(shares),
        i < shares.len() ==> sum_of(shares.take(i)) + shares[i] <= sum_of(shares),
    decreases shares.len() - i,
{
    if i == shares.len() {
        assert(shares.take(i) =~= shares);
        lemma_sum_of_nonnegative(shares);
    } else {
        lemma_sum_of_bounds(shares, i + 1);
        assert(shares.take(i + 1).drop_last() =~= shares.take(i));
        lemma_sum_of_nonnegative(shares.take(i));
    }
}

proof fn lemma_sum_of_nonnegative(shares: Seq<u32>)
    ensures
        sum_of(shares) >= 0,
    decreases shares.len(),
{
    if shares.len() > 0 {
        lemma_sum_of_nonnegative(shares.drop_last());
    }
}

/// The tiers before `tier` get no more than their shares add up to.
pub proof fn lemma_shares_before(amount: int, prizes: Seq<u32>, tier: int)
    requires
        0 <= tier <= prizes.len(),
        0 <= amount,
    ensures
        0 <= shares_before(amount, prizes, tier),
        shares_before(amount, prizes, tier) * 10000 <= amount * sum_of(prizes.take(tier)),
    decreases tier,
{
    if tier > 0 {
        lemma_shares_before(amount, prizes, tier - 1);
        let bp = prizes[tier - 1];
        let before = sum_of(prizes.take(tier - 1));
        assert(prizes.take(tier).drop_last() =~= prizes.take(tier - 1));
        assert(0 <= amount * bp) by (nonlinear_arith)
            requires
                0 <= amount,
        ;
        assert(amount * (before + bp) == amount * before + amount * bp) by (nonlinear_arith);
    }
}

/// Computes what a tier gets.
pub fn calculate_tier_prize(raffle: &Raffle, tier_index: u32) -> (r: Result<i128, Error>)
    requires
        0 < raffle@.prizes.len() <= u32::MAX,
        sum_of(raffle@.prizes) <= 10000,
        0 <= raffle@.prize_amount <= MAX_PRIZE_AMOUNT,
    ensures
        tier_index >= raffle@.prizes.len() ==> r == Err::<i128, Error>(Error::InvalidIndex),
        tier_index < raffle@.prizes.len() ==> r is Ok && r->Ok_0 == tier_prize(
            raffle@,
            tier_index as int,
        ) && 0 <= r->Ok_0 <= raffle@.prize_amount,
{
    let count: u32 = raffle.prizes.len() as u32;
    let amount: i128 = raffle.prize_amount;
    if tier_index >= count {
        return Err(Error::InvalidIndex);
    }
    proof {
        assert forall|i: int| 0 <= i < raffle@.prizes.len() implies #[trigger] raffle@.prizes[i]
            <= 10000 by {
            lemma_sum_of_bounds(raffle@.prizes, i);
        }
    }
    if tier_index == count - 1 {
        let mut allocated: i128 = 0;
        let mut i: u32 = 0;
        while i < tier_index
            invariant
                sum_of(raffle@.prizes) <= 10000,
                0 <= amount <= MAX_PRIZE_AMOUNT,
                amount == raffle@.prize_amount,
                count == raffle@.prizes.len(),
                i <= tier_index < count,
                allocated == shares_before(amount as int, raffle@.prizes, i as int),
                0 <= allocated <= amount,
                forall|k: int| 0 <= k < raffle@.prizes.len() ==> #[trigger] raffle@.prizes[k] <= 10000,
            decreases tier_index - i,
        {
            let bp: u32 = raffle.prizes[i as usize];
            assert(0 <= amount * bp <= amount * 10000) by (nonlinear_arith)
                requires
                    0 <= amount,
                    0 <= bp <= 10000,
            ;
            proof {
                lemma_shares_before(amount as int, raffle@.prizes, i + 1);
                lemma_sum_of_bounds(raffle@.prizes, i + 1);
                let s = sum_of(raffle@.prizes.take(i + 1));
                assert(amount * s <= amount * 10000) by (nonlinear_arith)
                    requires
                        0 <= amount,
                        s <= 10000,
                ;
            }
            let part: i128 = amount * (bp as i128) / 10000;
            allocated = allocated + part;
            i += 1;
        }
        return Ok(amount - allocated);
    }
    let bp: u32 = raffle.prizes[tier_index as usize];
    assert(0 <= amount * bp <= amount * 10000) by (nonlinear_arith)
        requires
            0 <= amount,
            0 <= bp <= 10000,
    ;
    Ok(amount * (bp as i128) / 10000)
}

/// The indices of the tickets that win with a seed.
pub open spec fn winning_tickets(store: StoreView, seed: u64) -> Seq<u32>
    recommends
        store.raffle is Some,
{
    winning_indices(seed, store.raffle->0.tickets_sold, store.raffle->0.prizes.len() as u32)
}

/// Why no winners can be named, if none can.
pub open spec fn winners_refusal(store: StoreView, seed: u64) -> Option<Error>
    recommends
        store.raffle is Some,
{
    let raffle = store.raffle->0;
    let tickets = winning_tickets(store, seed);
    if raffle.tickets_sold == 0 {
        Some(Error::NoTicketsSold)
    } else if raffle.prizes.len() > raffle.tickets_sold {
        Some(Error::MorePrizesThanTickets)
    } else if exists|i: int|
        0 <= i < tickets.len() && !store.tickets.contains_key((#[trigger] tickets[i] + 1) as u32) {
        Some(Error::TicketNotFound)
    } else {
        None
    }
}

/// The owners of the tickets that win with a seed, tier by tier.
pub open spec fn winners_of(store: StoreView, seed: u64) -> Seq<Address>
    recommends
        winners_refusal(store, seed) is None,
{
    let tickets = winning_tickets(store, seed);
    Seq::new(tickets.len(), |i: int| store.tickets[(tickets[i] + 1) as u32].owner)
}

/// Names the winners: the indices of the winning tickets, and who owns them.
pub fn choose_winners(env: &Env, store: &Store, seed: u64) -> (r: Result<
    (Vec<u32>, Vec<Address>),
    Error,
>)
    requires
        store.raffle is Some,
        store.raffle->0@.wf(),
    ensures
        match r {
            Ok((tickets, winners)) => {
                &&& winners_refusal(store@, seed) is None
                &&& tickets@ == winning_tickets(store@, seed)
                &&& winners@ == winners_of(store@, seed)
            },
            Err(e) => winners_refusal(store@, seed) == Some(e),
        },
{
    let (total_tickets, prize_count): (u32, u32) = match &store.raffle {
        Some(raffle) => (raffle.tickets_sold, raffle.prizes.len() as u32),
        None => (0, 0),
    };
    if total_tickets == 0 {
        return Err(Error::NoTicketsSold);
    }
    if prize_count > total_tickets {
        return Err(Error::MorePrizesThanTickets);
    }
    let ghost expected = winning_tickets(store@, seed);
    proof {
        winners_are_distinct_tickets(seed, total_tickets, prize_count);
    }
    let selector = OracleSeedWinnerSelection::new(seed);
    let selected = selector.select_winner_indices(env, total_tickets, prize_count);
    let mut tickets: Vec<u32> = Vec::new();
    let mut winners: Vec<Address> = Vec::new();
    match selected {
        Some(indices) => {
            let count: u32 = host_vec_len(&indices);
            let mut i: u32 = 0;
            while i < count
                invariant
                    i <= count,
                    count == expected.len(),
                    items_of(indices) == expected,
                    holds_numbers(indices),
                    expected == winning_tickets(store@, seed),
                    store.raffle is Some,
                    0 < store@.raffle->0.tickets_sold <= 100_000,
                    store@.raffle->0.prizes.len() <= store@.raffle->0.tickets_sold,
                    forall|k: int|
                        0 <= k < expected.len() ==> #[trigger] expected[k]
                            < store@.raffle->0.tickets_sold,
                    tickets@ == expected.take(i as int),
                    winners@.len() == i,
                    forall|k: int|
                        0 <= k < i ==> store@.tickets.contains_key(
                            (#[trigger] expected[k] + 1) as u32,
                        ) && winners@[k] == store@.tickets[(expected[k] + 1) as u32].owner,
                decreases count - i,
            {
                let idx: u32 = match host_vec_get(&indices, i) {
                    Some(idx) => idx,
                    None => return Err(Error::InvalidIndex),
                };
                assert(idx == expected[i as int]);
                match get_ticket_owner(store, idx + 1) {
                    Some(winner) => {
                        winners.push(winner);
                    },
                    None => {
                        assert(!store@.tickets.contains_key((expected[i as int] + 1) as u32));
                        return Err(Error::TicketNotFound);
                    },
                }
                tickets.push(idx);
                assert(expected.take(i + 1) =~= expected.take(i as int).push(idx));
                i += 1;
            }
            assert(expected.take(count as int) =~= expected);
            assert(winners@ =~= winners_of(store@, seed));
        },
        None => {},
    }
    Ok((tickets, winners))
}

/// The news of the winners.
pub open spec fn winner_news(tickets: Seq<u32>, winners: Seq<Address>, timestamp: u64) -> Seq<ActionView> {
    Seq::new(
        tickets.len(),
        |i: int|
            ActionView::Publish(
                Event::WinnerDrawn {
                    winner: winners[i],
                    ticket_id: tickets[i],
                    tier_index: i as u32,
                    timestamp,
                },
            ),
    )
}

/// A frame once its raffle has its winners.
pub open spec fn finalized_frame(f: FrameView, seed: u64, randomness_type: RandomnessType) -> FrameView
    recommends
        f.store.raffle is Some,
{
    let raffle = f.store.raffle->0;
    let tickets = winning_tickets(f.store, seed);
    let winners = winners_of(f.store, seed);
    let now = f.ledger.timestamp;
    FrameView {
        ledger: f.ledger,
        store: StoreView {
            raffle: Some(
                RaffleView {
                    status: RaffleStatus::Finalized,
                    winners,
                    claimed_winners: Seq::new(raffle.prizes.len(), |i: int| false),
                    finalized_at: Some(now),
                    ..raffle
                },
            ),
            randomness_seed: Some(
                FairnessMetadataView {
                    seed,
                    randomness_source: raffle.randomness_source,
                    winning_ticket_indices: tickets,
                    draw_timestamp: now,
                    draw_sequence: f.ledger.sequence,
                },
            ),
            randomness_requested: false,
            randomness_request_id: None,
            randomness_request_ledger: None,
            drawing_lock: false,
            ..f.store
        },
        actions: (f.actions + winner_news(tickets, winners, now)).push(
            ActionView::PublishFinalized {
                raffle_id: f.ledger.contract,
                winners,
                winning_ticket_ids: tickets,
                total_tickets_sold: raffle.tickets_sold,
                randomness_source: raffle.randomness_source,
                randomness_type,
                finalized_at: now,
            },
        ),
    }
}

/// What [`do_finalize_with_seed`] comes to.
pub open spec fn finalize_with_seed_outcome(f: FrameView, seed: u64, randomness_type: RandomnessType) -> (
    Result<(), Error>,
    FrameView,
) {
    match winners_refusal(f.store, seed) {
        Some(e) => (Err(e), f),
        None => (Ok(()), finalized_frame(f, seed, randomness_type)),
    }
}

/// Copies a list.
pub fn copy_list<T: Copy>(list: &Vec<T>) -> (r: Vec<T>)
    ensures
        r@ == list@,
{
    let mut r: Vec<T> = Vec::new();
    let mut i: usize = 0;
    while i < list.len()
        invariant
            i <= list@.len(),
            r@ == list@.take(i as int),
        decreases list@.len() - i,
    {
        r.push(list[i]);
        assert(list@.take(i + 1) =~= list@.take(i as int).push(list@[i as int]));
        i += 1;
    }
    assert(list@.take(i as int) =~= list@);
    r
}

/// Writes down the winners that [`choose_winners`] named and ends the draw.
pub fn record_winners(
    frame: &mut Frame,
    seed: u64,
    randomness_type: RandomnessType,
    tickets: Vec<u32>,
    winners: Vec<Address>,
)
    requires
        old(frame).store.raffle is Some,
        old(frame).store.raffle->0@.wf(),
        winners_refusal(old(frame)@.store, seed) is None,
        tickets@ == winning_tickets(old(frame)@.store, seed),
        winners@ == winners_of(old(frame)@.store, seed),
    ensures
        final(frame)@ == finalized_frame(old(frame)@, seed, randomness_type),
{
    let ghost f = frame@;
    let now: u64 = frame.ledger.timestamp;
    let (prize_count, tickets_sold, randomness_source) = match &frame.store.raffle {
        Some(raffle) => (raffle.prizes.len(), raffle.tickets_sold, raffle.randomness_source),
        None => return,
    };
    proof {
        winners_are_distinct_tickets(seed, tickets_sold, prize_count as u32);
    }
    let mut i: usize = 0;
    let ghost news = winner_news(tickets@, winners@, now);
    assert(f.actions + news.take(0) =~= f.actions);
    while i < tickets.len()
        invariant
            i <= tickets@.len(),
            tickets@.len() == winners@.len(),
            tickets@.len() <= u32::MAX,
            frame.store == old(frame).store,
            frame.ledger == old(frame).ledger,
            news == winner_news(tickets@, winners@, now),
            frame@.actions == f.actions + news.take(i as int),
        decreases tickets@.len() - i,
    {
        frame.act(
            Action::Publish(
                Event::WinnerDrawn {
                    winner: winners[i],
                    ticket_id: tickets[i],
                    tier_index: i as u32,
                    timestamp: now,
                },
            ),
        );
        assert(f.actions + news.take(i + 1) =~= (f.actions + news.take(i as int)).push(news[i as int]));
        i += 1;
    }
    assert(news.take(i as int) =~= news);

    let mut claimed: Vec<bool> = Vec::new();
    let mut k: usize = 0;
    while k < prize_count
        invariant
            k <= prize_count,
            claimed@ == Seq::new(k as nat, |j: int| false),
        decreases prize_count - k,
    {
        claimed.push(false);
        k += 1;
        assert(claimed@ =~= Seq::new(k as nat, |j: int| false));
    }

    frame.store.randomness_seed = Some(
        FairnessMetadata {
            seed,
            randomness_source,
            winning_ticket_indices: copy_list(&tickets),
            draw_timestamp: now,
            draw_sequence: frame.ledger.sequence,
        },
    );
    let raffle = frame.store.raffle_mut();
    raffle.status = RaffleStatus::Finalized;
    raffle.winners = copy_list(&winners);
    raffle.claimed_winners = claimed;
    raffle.finalized_at = Some(now);
    frame.store.randomness_requested = false;
    frame.store.randomness_request_id = None;
    frame.store.randomness_request_ledger = None;
    frame.store.drawing_lock = false;
    let raffle_id = frame.ledger.contract;
    frame.act(
        Action::PublishFinalized(
            RaffleFinalized {
                raffle_id,
                winners,
                winning_ticket_ids: tickets,
                total_tickets_sold: tickets_sold,
                randomness_source,
                randomness_type,
                finalized_at: now,
            },
        ),
    );
}

/// Draws the winners from a seed, writes them down and ends the draw.
pub fn do_finalize_with_seed(env: &Env, frame: &mut Frame, seed: u64, randomness_type: RandomnessType) -> (r:
    Result<(), Error>)
    requires
        old(frame).store.raffle is Some,
        old(frame).store.raffle->0@.wf(),
    ensures
        (r, final(frame)@) == finalize_with_seed_outcome(old(frame)@, seed, randomness_type),
{
    match choose_winners(env, &frame.store, seed) {
        Ok((tickets, winners)) => {
            record_winners(frame, seed, randomness_type, tickets, winners);
            Ok(())
        },
        Err(e) => Err(e),
    }
}

} // verus!
